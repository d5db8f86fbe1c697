//! The publisher dispatch step.
//!
//! A connection classified as publisher is read line by line. Each line is
//! validated as a publish message; a valid line is forwarded — as received —
//! to every subscriber in a snapshot of its topic, and a malformed line draws
//! one error reply to the publisher itself while the connection stays open.
//! Delivery failures are reported back to the registry afterwards, through
//! [`SubscriberList::remove_disconnected`] (or [`crate::broker::Broker::evict`]).

use crate::json::json_string_field;
use crate::json::string_field;
use crate::registry::Subscriber;
use crate::registry::SubscriberList;
use crate::registry::topic_snapshot;
use crate::text::decode_line;
use crate::text::decoded_or_empty;
use vstd::prelude::*;

verus! {

/// Correct format for a message request: `{"message": "<text>"}`.
pub struct Message {
    /// The message's text. Dispatch never inspects it: the raw line, not a
    /// re-serialized form, is what subscribers receive.
    pub message: String,
}

/// What a publisher's line parses to: the `message` string field when the
/// line is a JSON object carrying one, and nothing otherwise.
pub open spec fn spec_parse_message(line: Seq<char>) -> Option<Seq<char>> {
    json_string_field(line, "message"@)
}

/// Parses one publisher line as a publish message.
pub fn parse_message(line: &str) -> (r: Option<Message>)
    ensures
        match (r, spec_parse_message(line@)) {
            (Some(msg), Some(s)) => msg.message@ == s,
            (None, None) => true,
            _ => false,
        },
{
    match string_field(line, "message") {
        Some(message) => Some(Message { message }),
        None => None,
    }
}

/// The characters of the response to a malformed publish line. Its final
/// `\n` is two literal characters, a backslash and an `n`, not a line
/// terminator: the response is sent as-is, in one unterminated line.
pub open spec fn publish_error_text() -> Seq<char> {
    "{\"error\": \"received not valid json\"}\\n"@
}

/// The response sent to a publisher whose line was not a valid publish
/// message. The connection stays open afterwards.
pub fn publish_error_line() -> (r: String)
    ensures
        r@ == publish_error_text(),
{
    "{\"error\": \"received not valid json\"}\\n".to_owned()
}

/// What the dispatch loop does with one line read from a publisher.
pub enum PublisherAction {
    /// The line was not a valid publish message: write this reply to the
    /// publisher's own connection and deliver nothing. The connection stays
    /// open — the publisher may send further lines — and is closed only when
    /// writing the reply itself fails.
    Reply(String),
    /// The line was a valid publish message: write the payload — the raw
    /// line exactly as received, without a terminator re-appended — to each
    /// recipient's connection, one at a time, then report the ids whose
    /// write failed for eviction. Failures are not reported to the
    /// publisher.
    Deliver(Vec<Subscriber>, String),
}

/// One step of the publisher dispatch loop, for one complete line read from
/// the publisher's connection (fan-out correctness in one contract).
///
/// A valid line is dispatched to exactly the topic's subscribers at this
/// moment — every member of the snapshot, in registration order, and nobody
/// of any other topic — with the raw line as payload. A malformed line
/// (invalid UTF-8 decodes to the empty string, which no parse accepts) draws
/// exactly the error reply. The registry itself is not changed by either
/// outcome; eviction happens only when the caller reports failed writes.
pub fn publisher_step(subscribers: &mut SubscriberList, topic_name: &str, line: Vec<u8>) -> (r:
    PublisherAction)
    requires
        old(subscribers).wf(),
    ensures
        *final(subscribers) == *old(subscribers),
        match r {
            PublisherAction::Reply(response) => {
                &&& spec_parse_message(decoded_or_empty(line@)) is None
                &&& response@ == publish_error_text()
            },
            PublisherAction::Deliver(recipients, payload) => {
                &&& spec_parse_message(decoded_or_empty(line@)) is Some
                &&& recipients@ == topic_snapshot(old(subscribers)@, topic_name@)
                &&& payload@ == decoded_or_empty(line@)
            },
        },
{
    let text = decode_line(line);
    match parse_message(text.as_str()) {
        Some(_) => {
            let recipients = subscribers.get(topic_name);
            PublisherAction::Deliver(recipients, text)
        },
        None => PublisherAction::Reply(publish_error_line()),
    }
}

} // verus!
