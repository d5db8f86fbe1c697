//! A minimal in-memory topic broker.
//!
//! Clients declare a role (publisher or subscriber) and a topic with a
//! one-line JSON handshake; publishers then send one JSON message per line,
//! and each message line is forwarded verbatim to every subscriber currently
//! registered for the topic. Subscribers whose connections have failed are
//! evicted lazily, on the first delivery attempt that fails.
//!
//! This crate holds the broker's logic: line assembly, handshake
//! classification, the topic registry, publisher dispatch planning and
//! connection-id assignment. Reading and writing the actual sockets is left
//! to the embedding program.

pub mod broker;
pub mod handshake;
pub mod json;
pub mod line;
pub mod publisher;
pub mod registry;
pub mod text;
