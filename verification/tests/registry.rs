use minikafka::registry::{Subscriber, SubscriberList};
use std::collections::HashSet;

fn ids(subs: &[Subscriber]) -> Vec<usize> {
    subs.iter().map(|s| s.id).collect()
}

#[test]
fn snapshot_of_unknown_topic_is_empty() {
    let mut list = SubscriberList::new();
    assert!(list.get("nowhere").is_empty());
}

#[test]
fn add_appends_in_registration_order() {
    let mut list = SubscriberList::new();
    list.add("t1".to_string(), Subscriber { socket: 10, id: 0 });
    list.add("t1".to_string(), Subscriber { socket: 11, id: 1 });
    list.add("t2".to_string(), Subscriber { socket: 12, id: 2 });
    assert_eq!(ids(&list.get("t1")), vec![0, 1]);
    assert_eq!(ids(&list.get("t2")), vec![2]);
}

#[test]
fn eviction_removes_exactly_the_failed_ids() {
    // lazy eviction: a subscriber goes away only when its failed delivery is
    // reported, and the others are retained in order
    let mut list = SubscriberList::new();
    list.add("t1".to_string(), Subscriber { socket: 10, id: 0 });
    list.add("t1".to_string(), Subscriber { socket: 11, id: 1 });
    list.add("t1".to_string(), Subscriber { socket: 12, id: 2 });
    let mut failed = HashSet::new();
    failed.insert(1);
    list.remove_disconnected("t1".to_string(), failed);
    assert_eq!(ids(&list.get("t1")), vec![0, 2]);
}

#[test]
fn eviction_targets_current_state_not_the_snapshot() {
    // a subscriber added between snapshot and eviction is retained even
    // though the snapshot did not contain it
    let mut list = SubscriberList::new();
    list.add("t1".to_string(), Subscriber { socket: 10, id: 0 });
    let snapshot = list.get("t1");
    assert_eq!(ids(&snapshot), vec![0]);
    list.add("t1".to_string(), Subscriber { socket: 11, id: 1 });
    let mut failed = HashSet::new();
    failed.insert(0);
    list.remove_disconnected("t1".to_string(), failed);
    assert_eq!(ids(&list.get("t1")), vec![1]);
}

#[test]
fn eviction_of_unknown_topic_changes_nothing() {
    let mut list = SubscriberList::new();
    list.add("t1".to_string(), Subscriber { socket: 10, id: 0 });
    let mut failed = HashSet::new();
    failed.insert(0);
    list.remove_disconnected("t2".to_string(), failed);
    assert_eq!(ids(&list.get("t1")), vec![0]);
}

#[test]
fn emptied_topic_accepts_new_subscribers() {
    // the topic key persists after its last subscriber is evicted
    let mut list = SubscriberList::new();
    list.add("t1".to_string(), Subscriber { socket: 10, id: 0 });
    let mut failed = HashSet::new();
    failed.insert(0);
    list.remove_disconnected("t1".to_string(), failed);
    assert!(list.get("t1").is_empty());
    list.add("t1".to_string(), Subscriber { socket: 11, id: 1 });
    assert_eq!(ids(&list.get("t1")), vec![1]);
}

#[test]
fn snapshots_are_copies() {
    // mutating the registry after a snapshot does not change the snapshot
    let mut list = SubscriberList::new();
    list.add("t1".to_string(), Subscriber { socket: 10, id: 0 });
    let snapshot = list.get("t1");
    let mut failed = HashSet::new();
    failed.insert(0);
    list.remove_disconnected("t1".to_string(), failed);
    assert_eq!(ids(&snapshot), vec![0]);
    assert!(list.get("t1").is_empty());
}
