use minikafka::handshake::{
    classify_join, classify_join_line, join_error_line, parse_join, JoinMethod, JoinType,
};

#[test]
fn subscribe_handshake_classifies_as_subscriber() {
    let (kind, topic) = classify_join("{\"method\":\"subscribe\",\"topic\":\"t1\"}");
    assert_eq!(kind, JoinType::Subscriber);
    assert_eq!(topic, "t1");
}

#[test]
fn publish_handshake_classifies_as_publisher() {
    let (kind, topic) = classify_join("{\"method\":\"publish\",\"topic\":\"news\"}");
    assert_eq!(kind, JoinType::Publisher);
    assert_eq!(topic, "news");
}

#[test]
fn parse_join_extracts_method_and_topic() {
    let msg = parse_join("{\"method\":\"subscribe\",\"topic\":\"weather\"}").unwrap();
    assert_eq!(msg.method, JoinMethod::Subscriber);
    assert_eq!(msg.topic, "weather");
    let msg = parse_join("{\"topic\":\"weather\",\"method\":\"publish\"}").unwrap();
    assert_eq!(msg.method, JoinMethod::Publisher);
    assert_eq!(msg.topic, "weather");
}

#[test]
fn invalid_json_handshake_is_rejected() {
    let (kind, topic) = classify_join("not json");
    assert_eq!(kind, JoinType::Unsuccessful);
    assert_eq!(topic, "");
}

#[test]
fn missing_method_is_rejected() {
    // scenario: a first line of {"topic":"t1"} draws the error envelope and
    // the connection is then closed
    let (kind, _) = classify_join("{\"topic\":\"t1\"}");
    assert_eq!(kind, JoinType::Unsuccessful);
    assert_eq!(
        join_error_line(),
        "{\"error\": \"Incorrect join message. Try --help\"}\\n"
    );
}

#[test]
fn missing_topic_is_rejected() {
    let (kind, _) = classify_join("{\"method\":\"subscribe\"}");
    assert_eq!(kind, JoinType::Unsuccessful);
}

#[test]
fn unknown_method_is_rejected() {
    let (kind, _) = classify_join("{\"method\":\"consume\",\"topic\":\"t1\"}");
    assert_eq!(kind, JoinType::Unsuccessful);
}

#[test]
fn non_string_fields_are_rejected() {
    let (kind, _) = classify_join("{\"method\":7,\"topic\":\"t1\"}");
    assert_eq!(kind, JoinType::Unsuccessful);
    let (kind, _) = classify_join("{\"method\":\"subscribe\",\"topic\":17}");
    assert_eq!(kind, JoinType::Unsuccessful);
}

#[test]
fn empty_line_is_rejected() {
    let (kind, _) = classify_join("");
    assert_eq!(kind, JoinType::Unsuccessful);
}

#[test]
fn handshake_from_raw_bytes() {
    let line = b"{\"method\":\"subscribe\",\"topic\":\"t1\"}".to_vec();
    let (kind, topic) = classify_join_line(line);
    assert_eq!(kind, JoinType::Subscriber);
    assert_eq!(topic, "t1");
}

#[test]
fn invalid_utf8_handshake_is_rejected() {
    // invalid UTF-8 decodes to the empty string, which fails the parse
    let (kind, topic) = classify_join_line(vec![0xff, 0xfe, b'{', b'}']);
    assert_eq!(kind, JoinType::Unsuccessful);
    assert_eq!(topic, "");
}

#[test]
fn join_error_line_ends_in_literal_escape() {
    let line = join_error_line();
    // the trailing \n is two characters, not a line terminator
    assert!(line.ends_with("\\n"));
    assert!(!line.ends_with('\n'));
}
