//! The handshake classifier.
//!
//! The first line of every connection must be a join request,
//! `{"method": "subscribe" | "publish", "topic": "<name>"}`. A line that is
//! not valid JSON, or lacks a string `method` of exactly `subscribe` or
//! `publish`, or lacks a string `topic`, fails the handshake: the connection
//! is told [`join_error_line`] once and then closed. On success nothing is
//! written back; the connection proceeds in its declared role.

use crate::json::json_string_field;
use crate::json::string_field;
use crate::text::decode_line;
use crate::text::decoded_or_empty;
use crate::text::str_eq;
use vstd::prelude::*;

verus! {

/// The role a join request asks for.
#[derive(Clone, Copy, Debug, PartialEq, Eq, Structural)]
pub enum JoinMethod {
    /// Receive every message published to the topic.
    Subscriber,
    /// Send messages to the topic.
    Publisher,
}

/// A parsed join request: the declared role and the topic it names.
#[derive(Debug)]
pub struct JoinMessage {
    /// The declared role.
    pub method: JoinMethod,
    /// The topic name.
    pub topic: String,
}

/// How a new connection was classified by its first line.
#[derive(Clone, Copy, Debug, PartialEq, Eq, Structural)]
pub enum JoinType {
    /// The line was a valid join request with method `publish`.
    Publisher,
    /// The line was a valid join request with method `subscribe`.
    Subscriber,
    /// The line was no valid join request (or the connection ended first).
    Unsuccessful,
}

/// What a handshake line parses to: the role and topic when the line is a
/// JSON object whose `method` is the string `subscribe` or `publish` and
/// whose `topic` is a string, and nothing otherwise.
pub open spec fn spec_parse_join(line: Seq<char>) -> Option<(JoinMethod, Seq<char>)> {
    match (json_string_field(line, "method"@), json_string_field(line, "topic"@)) {
        (Some(method), Some(topic)) => if method == "subscribe"@ {
            Some((JoinMethod::Subscriber, topic))
        } else if method == "publish"@ {
            Some((JoinMethod::Publisher, topic))
        } else {
            None
        },
        _ => None,
    }
}

/// Parses a handshake line as a join request.
pub fn parse_join(line: &str) -> (r: Option<JoinMessage>)
    ensures
        match (r, spec_parse_join(line@)) {
            (Some(msg), Some(s)) => msg.method == s.0 && msg.topic@ == s.1,
            (None, None) => true,
            _ => false,
        },
{
    let method = string_field(line, "method");
    let topic = string_field(line, "topic");
    match (method, topic) {
        (Some(method), Some(topic)) => {
            if str_eq(method.as_str(), "subscribe") {
                Some(JoinMessage { method: JoinMethod::Subscriber, topic })
            } else if str_eq(method.as_str(), "publish") {
                Some(JoinMessage { method: JoinMethod::Publisher, topic })
            } else {
                None
            }
        },
        _ => None,
    }
}

/// How a handshake line classifies the connection, with the topic it joins
/// (the empty string when the handshake fails).
pub open spec fn spec_classify(line: Seq<char>) -> (JoinType, Seq<char>) {
    match spec_parse_join(line) {
        Some((JoinMethod::Subscriber, topic)) => (JoinType::Subscriber, topic),
        Some((JoinMethod::Publisher, topic)) => (JoinType::Publisher, topic),
        None => (JoinType::Unsuccessful, Seq::empty()),
    }
}

/// Classifies a connection from its decoded first line.
///
/// Exactly the lines accepted by [`spec_parse_join`] classify as
/// [`JoinType::Subscriber`] or [`JoinType::Publisher`]; every other line
/// classifies as [`JoinType::Unsuccessful`], upon which the caller must send
/// [`join_error_line`] and close the connection, registering nothing.
pub fn classify_join(line: &str) -> (r: (JoinType, String))
    ensures
        r.0 == spec_classify(line@).0,
        r.1@ == spec_classify(line@).1,
{
    match parse_join(line) {
        Some(msg) => match msg.method {
            JoinMethod::Subscriber => (JoinType::Subscriber, msg.topic),
            JoinMethod::Publisher => (JoinType::Publisher, msg.topic),
        },
        None => (JoinType::Unsuccessful, String::new()),
    }
}

/// Classifies a connection from the raw bytes of its first line, as
/// accumulated up to (and excluding) the terminator. Bytes that are not valid
/// UTF-8 decode to the empty string, which fails the handshake.
pub fn classify_join_line(line: Vec<u8>) -> (r: (JoinType, String))
    ensures
        r.0 == spec_classify(decoded_or_empty(line@)).0,
        r.1@ == spec_classify(decoded_or_empty(line@)).1,
{
    let text = decode_line(line);
    classify_join(text.as_str())
}

/// The characters of the handshake rejection line. Its final `\n` is two
/// literal characters, a backslash and an `n`, not a line terminator: the
/// response is sent as-is, in one unterminated line.
pub open spec fn join_error_text() -> Seq<char> {
    "{\"error\": \"Incorrect join message. Try --help\"}\\n"@
}

/// The one response sent on a failed handshake, before the connection is
/// closed.
pub fn join_error_line() -> (r: String)
    ensures
        r@ == join_error_text(),
{
    "{\"error\": \"Incorrect join message. Try --help\"}\\n".to_owned()
}

} // verus!
