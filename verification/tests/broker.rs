use minikafka::broker::Broker;
use minikafka::handshake::JoinType;
use minikafka::publisher::PublisherAction;
use minikafka::registry::Subscriber;
use std::collections::HashSet;

#[test]
fn assigned_ids_are_pairwise_distinct() {
    // ids come from a strictly increasing counter, publishers included
    let mut broker = Broker::new();
    let mut seen = HashSet::new();
    for _ in 0..100 {
        let id = broker.accept_connection();
        assert!(seen.insert(id), "id {} assigned twice", id);
    }
}

#[test]
fn subscriber_joining_after_a_dispatch_does_not_receive_it() {
    // no replay: the late subscriber is absent from the first dispatch's
    // recipients and present in the next one's
    let mut broker = Broker::new();
    let first = broker.accept_connection();
    broker.register_subscriber("t1".to_string(), Subscriber { socket: 0, id: first });
    let recipients_before = match broker.publish("t1", b"{\"message\":\"m\"}".to_vec()) {
        PublisherAction::Deliver(recipients, _) => recipients,
        PublisherAction::Reply(_) => panic!("valid line must dispatch"),
    };
    let late = broker.accept_connection();
    broker.register_subscriber("t1".to_string(), Subscriber { socket: 1, id: late });
    assert!(recipients_before.iter().all(|s| s.id != late));
    let recipients_after = match broker.publish("t1", b"{\"message\":\"m\"}".to_vec()) {
        PublisherAction::Deliver(recipients, _) => recipients,
        PublisherAction::Reply(_) => panic!("valid line must dispatch"),
    };
    assert!(recipients_after.iter().any(|s| s.id == late));
}

#[test]
fn eviction_after_failed_delivery_removes_the_subscriber() {
    let mut broker = Broker::new();
    let id0 = broker.accept_connection();
    let id1 = broker.accept_connection();
    broker.register_subscriber("t1".to_string(), Subscriber { socket: 0, id: id0 });
    broker.register_subscriber("t1".to_string(), Subscriber { socket: 1, id: id1 });
    // the embedding program found the write to id0's connection failing
    let mut failed = HashSet::new();
    failed.insert(id0);
    broker.evict("t1".to_string(), failed);
    match broker.publish("t1", b"{\"message\":\"m\"}".to_vec()) {
        PublisherAction::Deliver(recipients, _) => {
            assert_eq!(recipients.len(), 1);
            assert_eq!(recipients[0].id, id1);
        }
        PublisherAction::Reply(_) => panic!("valid line must dispatch"),
    }
}

#[test]
fn failed_handshake_registers_nothing() {
    let mut broker = Broker::new();
    let id = broker.accept_connection();
    let (kind, topic) = broker.handle_join(id, id as u64, b"{\"topic\":\"t1\"}".to_vec());
    assert_eq!(kind, JoinType::Unsuccessful);
    assert_eq!(topic, "");
    match broker.publish("t1", b"{\"message\":\"m\"}".to_vec()) {
        PublisherAction::Deliver(recipients, _) => assert!(recipients.is_empty()),
        PublisherAction::Reply(_) => panic!("valid line must dispatch"),
    }
}

#[test]
fn publisher_handshake_registers_nothing() {
    let mut broker = Broker::new();
    let id = broker.accept_connection();
    let line = b"{\"method\":\"publish\",\"topic\":\"t1\"}".to_vec();
    let (kind, topic) = broker.handle_join(id, id as u64, line);
    assert_eq!(kind, JoinType::Publisher);
    assert_eq!(topic, "t1");
    match broker.publish("t1", b"{\"message\":\"m\"}".to_vec()) {
        PublisherAction::Deliver(recipients, _) => assert!(recipients.is_empty()),
        PublisherAction::Reply(_) => panic!("valid line must dispatch"),
    }
}

#[test]
fn subscribe_handshake_registers_the_connection() {
    let mut broker = Broker::new();
    let id = broker.accept_connection();
    let line = b"{\"method\":\"subscribe\",\"topic\":\"t1\"}".to_vec();
    let (kind, topic) = broker.handle_join(id, id as u64, line);
    assert_eq!(kind, JoinType::Subscriber);
    assert_eq!(topic, "t1");
    match broker.publish("t1", b"{\"message\":\"m\"}".to_vec()) {
        PublisherAction::Deliver(recipients, _) => {
            assert_eq!(recipients.len(), 1);
            assert_eq!(recipients[0].id, id);
            assert_eq!(recipients[0].socket, id as u64);
        }
        PublisherAction::Reply(_) => panic!("valid line must dispatch"),
    }
}

#[test]
fn broker_separates_topics() {
    let mut broker = Broker::new();
    let id0 = broker.accept_connection();
    broker.register_subscriber("t1".to_string(), Subscriber { socket: 0, id: id0 });
    match broker.publish("t2", b"{\"message\":\"m\"}".to_vec()) {
        PublisherAction::Deliver(recipients, _) => assert!(recipients.is_empty()),
        PublisherAction::Reply(_) => panic!("valid line must dispatch"),
    }
}
