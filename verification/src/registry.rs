//! The topic → subscriber registry.
//!
//! The registry owns the mapping from topic name to the ordered sequence of
//! its currently registered subscribers. A topic entry is created when its
//! first subscriber arrives and, once created, the key persists — eviction
//! can empty a topic's sequence but never removes the entry. All reads and
//! mutations go through one coordination point held by the embedding
//! program; each operation here is one indivisible step of it.

use crate::text::str_eq;
use std::collections::HashSet;
use vstd::prelude::*;

verus! {

broadcast use {
    vstd::std_specs::hash::group_hash_axioms,
    vstd::seq_lib::group_filter_ensures,
    vstd::seq_lib::group_seq_properties,
};

/// A registered subscriber.
#[derive(Clone, Copy, Debug, PartialEq, Eq, Structural)]
pub struct Subscriber {
    /// Handle of the subscriber's connection: the number under which the
    /// embedding program keeps the writable half of the socket.
    pub socket: u64,
    /// The unique id assigned when the connection was accepted; the sole key
    /// used for eviction.
    pub id: usize,
}

/// One topic's entry: its name, and its subscribers in registration order.
struct TopicEntry {
    name: String,
    subscribers: Vec<Subscriber>,
}

/// The subscribers of `topic` in registry state `m`: the topic's sequence
/// when the topic exists, and the empty sequence otherwise.
pub open spec fn topic_snapshot(
    m: Map<Seq<char>, Seq<Subscriber>>,
    topic: Seq<char>,
) -> Seq<Subscriber> {
    if m.contains_key(topic) {
        m[topic]
    } else {
        Seq::empty()
    }
}

/// The registry state after adding `s` under `topic`: the topic's sequence
/// grows by `s` at its end (the entry is created when absent), and every
/// other topic is untouched.
pub open spec fn registry_after_add(
    m: Map<Seq<char>, Seq<Subscriber>>,
    topic: Seq<char>,
    s: Subscriber,
) -> Map<Seq<char>, Seq<Subscriber>> {
    m.insert(topic, topic_snapshot(m, topic).push(s))
}

/// The subscribers that survive evicting the ids in `failed`: exactly those
/// whose id is not in `failed`, in their original order.
pub open spec fn surviving(subs: Seq<Subscriber>, failed: Set<usize>) -> Seq<Subscriber> {
    subs.filter(|s: Subscriber| !failed.contains(s.id))
}

/// The registry state after evicting the ids in `failed` from `topic`. An
/// absent topic stays absent; a present topic keeps its key even when no
/// subscriber survives.
pub open spec fn registry_after_evict(
    m: Map<Seq<char>, Seq<Subscriber>>,
    topic: Seq<char>,
    failed: Set<usize>,
) -> Map<Seq<char>, Seq<Subscriber>> {
    if m.contains_key(topic) {
        m.insert(topic, surviving(m[topic], failed))
    } else {
        m
    }
}

/// Contains and processes information about topics' subscribers.
///
/// The view is the mapping from topic name to subscriber sequence; every
/// operation states its exact effect on that mapping.
pub struct SubscriberList {
    topics: Vec<TopicEntry>,
}

impl View for SubscriberList {
    type V = Map<Seq<char>, Seq<Subscriber>>;

    closed spec fn view(&self) -> Map<Seq<char>, Seq<Subscriber>> {
        Map::new(
            |topic: Seq<char>| exists|i: int| self.entry_matches(i, topic),
            |topic: Seq<char>|
                self.topics@[choose|i: int| self.entry_matches(i, topic)].subscribers@,
        )
    }
}

impl SubscriberList {
    /// Entry `i` exists and carries the name `topic`.
    spec fn entry_matches(self, i: int, topic: Seq<char>) -> bool {
        0 <= i < self.topics@.len() && self.topics@[i].name@ == topic
    }

    /// Well-formed: no two entries share a name, so each topic has exactly
    /// one sequence.
    pub closed spec fn wf(self) -> bool {
        forall|i: int, j: int|
            0 <= i < j < self.topics@.len() ==> (#[trigger] self.topics@[i]).name@ != (
            #[trigger] self.topics@[j]).name@
    }

    /// Entry `i` is the one the view reads for its name.
    proof fn lemma_entry_view(self, i: int)
        requires
            self.wf(),
            0 <= i < self.topics@.len(),
        ensures
            self@.contains_key(self.topics@[i].name@),
            self@[self.topics@[i].name@] == self.topics@[i].subscribers@,
    {
        let k = self.topics@[i].name@;
        assert(self.entry_matches(i, k));
        let j = choose|j: int| self.entry_matches(j, k);
        assert(self.entry_matches(j, k));
        assert(j == i);
    }

    /// Create empty struct.
    pub fn new() -> (r: SubscriberList)
        ensures
            r.wf(),
            r@ == Map::<Seq<char>, Seq<Subscriber>>::empty(),
    {
        let r = SubscriberList { topics: Vec::new() };
        proof {
            assert(r@ =~= Map::<Seq<char>, Seq<Subscriber>>::empty());
        }
        r
    }

    /// The index of the topic's entry, if the topic exists.
    fn find_topic(&self, topic_name: &str) -> (r: Option<usize>)
        ensures
            match r {
                Some(i) => self.entry_matches(i as int, topic_name@),
                None => forall|i: int| !self.entry_matches(i, topic_name@),
            },
    {
        let n = self.topics.len();
        let mut i: usize = 0;
        while i < n
            invariant
                n == self.topics@.len(),
                i <= n,
                forall|j: int| 0 <= j < i ==> !self.entry_matches(j, topic_name@),
            decreases n - i,
        {
            if str_eq(self.topics[i].name.as_str(), topic_name) {
                return Some(i);
            }
            i = i + 1;
        }
        None
    }

    /// A copy of entry `i`'s subscriber sequence.
    fn subscribers_at(&self, i: usize) -> (r: Vec<Subscriber>)
        requires
            i < self.topics@.len(),
        ensures
            r@ == self.topics@[i as int].subscribers@,
    {
        let subs = &self.topics[i].subscribers;
        let n = subs.len();
        let mut out: Vec<Subscriber> = Vec::new();
        let mut j: usize = 0;
        while j < n
            invariant
                n == subs@.len(),
                j <= n,
                out@ == subs@.take(j as int),
            decreases n - j,
        {
            out.push(subs[j]);
            proof {
                assert(subs@.take(j as int + 1) =~= subs@.take(j as int).push(subs@[j as int]));
            }
            j = j + 1;
        }
        proof {
            assert(subs@.take(n as int) =~= subs@);
        }
        out
    }

    /// Add subscriber to topic. Creates topic, if it didn't exist.
    ///
    /// No dedup check is made beyond the natural uniqueness of freshly
    /// assigned ids: the caller hands each accepted connection's id to at
    /// most one registration.
    pub fn add(&mut self, topic_name: String, new_subscriber: Subscriber)
        requires
            old(self).wf(),
        ensures
            final(self).wf(),
            final(self)@ == registry_after_add(old(self)@, topic_name@, new_subscriber),
    {
        let found = self.find_topic(topic_name.as_str());
        match found {
            Some(i) => {
                let ghost pre = *self;
                let mut entry = self.topics.remove(i);
                entry.subscribers.push(new_subscriber);
                self.topics.insert(i, entry);
                proof {
                    let k = topic_name@;
                    let post = *self;
                    assert(post.topics@ =~= pre.topics@.update(
                        i as int,
                        post.topics@[i as int],
                    ));
                    assert(post.topics@[i as int].name@ == k);
                    assert(post.topics@[i as int].subscribers@ == pre.topics@[i as int]
                        .subscribers@.push(new_subscriber));
                    assert(post.wf());
                    pre.lemma_entry_view(i as int);
                    post.lemma_entry_view(i as int);
                    assert forall|t: Seq<char>|
                        post@.contains_key(t) == registry_after_add(
                            pre@,
                            k,
                            new_subscriber,
                        ).contains_key(t) by {
                        if t == k {
                        } else {
                            if post@.contains_key(t) {
                                let j = choose|j: int| post.entry_matches(j, t);
                                assert(post.entry_matches(j, t));
                                assert(pre.entry_matches(j, t));
                            }
                            if pre@.contains_key(t) {
                                let j = choose|j: int| pre.entry_matches(j, t);
                                assert(pre.entry_matches(j, t));
                                assert(post.entry_matches(j, t));
                            }
                        }
                    }
                    assert forall|t: Seq<char>| #[trigger]
                        post@.contains_key(t) && t != k implies post@[t] == pre@[t] by {
                        let j = choose|j: int| post.entry_matches(j, t);
                        assert(post.entry_matches(j, t));
                        assert(j != i);
                        assert(pre.entry_matches(j, t));
                        pre.lemma_entry_view(j);
                        post.lemma_entry_view(j);
                    }
                    assert(post@ =~= registry_after_add(pre@, k, new_subscriber));
                }
            },
            None => {
                let ghost pre = *self;
                let mut subscribers: Vec<Subscriber> = Vec::new();
                subscribers.push(new_subscriber);
                self.topics.push(TopicEntry { name: topic_name, subscribers });
                proof {
                    let post = *self;
                    let k = post.topics@.last().name@;
                    let n = pre.topics@.len() as int;
                    assert(post.topics@ =~= pre.topics@.push(post.topics@[n]));
                    assert(forall|i: int| !pre.entry_matches(i, k));
                    assert forall|i: int, j: int|
                        0 <= i < j < post.topics@.len() implies (#[trigger] post.topics@[i]).name@
                        != (#[trigger] post.topics@[j]).name@ by {
                        if j < n {
                            assert(pre.topics@[i] == post.topics@[i]);
                        } else {
                            assert(j == n);
                            assert(pre.entry_matches(i, pre.topics@[i].name@));
                        }
                    }
                    assert(post.wf());
                    assert(!pre@.contains_key(k));
                    assert(post.topics@[n].subscribers@ =~= Seq::<Subscriber>::empty().push(
                        new_subscriber,
                    ));
                    post.lemma_entry_view(n);
                    assert forall|t: Seq<char>|
                        post@.contains_key(t) == registry_after_add(
                            pre@,
                            k,
                            new_subscriber,
                        ).contains_key(t) by {
                        if t == k {
                        } else {
                            if post@.contains_key(t) {
                                let j = choose|j: int| post.entry_matches(j, t);
                                assert(post.entry_matches(j, t));
                                assert(j < n);
                                assert(pre.entry_matches(j, t));
                            }
                            if pre@.contains_key(t) {
                                let j = choose|j: int| pre.entry_matches(j, t);
                                assert(pre.entry_matches(j, t));
                                assert(post.entry_matches(j, t));
                            }
                        }
                    }
                    assert forall|t: Seq<char>| #[trigger]
                        post@.contains_key(t) && t != k implies post@[t] == pre@[t] by {
                        let j = choose|j: int| post.entry_matches(j, t);
                        assert(post.entry_matches(j, t));
                        assert(j < n);
                        assert(pre.entry_matches(j, t));
                        pre.lemma_entry_view(j);
                        post.lemma_entry_view(j);
                    }
                    assert(post@ =~= registry_after_add(pre@, k, new_subscriber));
                }
            },
        }
    }

    /// Get cloned vector of subscribers of the topic: a point-in-time
    /// snapshot, safe to iterate and write against after the registry's
    /// coordination point has been released.
    pub fn get(&mut self, topic_name: &str) -> (r: Vec<Subscriber>)
        requires
            old(self).wf(),
        ensures
            *final(self) == *old(self),
            r@ == topic_snapshot(old(self)@, topic_name@),
    {
        let found = self.find_topic(topic_name);
        match found {
            Some(i) => {
                proof {
                    self.lemma_entry_view(i as int);
                }
                self.subscribers_at(i)
            },
            None => {
                proof {
                    assert(!self@.contains_key(topic_name@));
                }
                Vec::new()
            },
        }
    }

    /// Delete all subscribers of the topic that are known to be
    /// disconnected. The topic's entry persists even when no subscriber is
    /// left; the filtering applies to the registry's current sequence, so
    /// subscribers added after the caller's snapshot are retained.
    pub fn remove_disconnected(&mut self, topic_name: String, disconnected: HashSet<usize>)
        requires
            old(self).wf(),
        ensures
            final(self).wf(),
            final(self)@ == registry_after_evict(old(self)@, topic_name@, disconnected@),
    {
        let found = self.find_topic(topic_name.as_str());
        match found {
            Some(i) => {
                let ghost pre = *self;
                let mut entry = self.topics.remove(i);
                let filtered = filter_connected(&entry.subscribers, &disconnected);
                entry.subscribers = filtered;
                self.topics.insert(i, entry);
                proof {
                    let k = topic_name@;
                    let post = *self;
                    assert(post.topics@ =~= pre.topics@.update(
                        i as int,
                        post.topics@[i as int],
                    ));
                    assert(post.topics@[i as int].name@ == k);
                    assert(post.topics@[i as int].subscribers@ == surviving(
                        pre.topics@[i as int].subscribers@,
                        disconnected@,
                    ));
                    assert(post.wf());
                    pre.lemma_entry_view(i as int);
                    post.lemma_entry_view(i as int);
                    assert forall|t: Seq<char>|
                        post@.contains_key(t) == registry_after_evict(
                            pre@,
                            k,
                            disconnected@,
                        ).contains_key(t) by {
                        if t == k {
                        } else {
                            if post@.contains_key(t) {
                                let j = choose|j: int| post.entry_matches(j, t);
                                assert(post.entry_matches(j, t));
                                assert(pre.entry_matches(j, t));
                            }
                            if pre@.contains_key(t) {
                                let j = choose|j: int| pre.entry_matches(j, t);
                                assert(pre.entry_matches(j, t));
                                assert(post.entry_matches(j, t));
                            }
                        }
                    }
                    assert forall|t: Seq<char>| #[trigger]
                        post@.contains_key(t) && t != k implies post@[t] == pre@[t] by {
                        let j = choose|j: int| post.entry_matches(j, t);
                        assert(post.entry_matches(j, t));
                        assert(j != i);
                        assert(pre.entry_matches(j, t));
                        pre.lemma_entry_view(j);
                        post.lemma_entry_view(j);
                    }
                    assert(post@ =~= registry_after_evict(pre@, k, disconnected@));
                }
            },
            None => {
                proof {
                    assert(!self@.contains_key(topic_name@));
                }
            },
        }
    }
}

/// The subscribers of `subs` whose id is not in `disconnected`, in order.
fn filter_connected(subs: &Vec<Subscriber>, disconnected: &HashSet<usize>) -> (r: Vec<Subscriber>)
    ensures
        r@ == surviving(subs@, disconnected@),
{
    let n = subs.len();
    let mut out: Vec<Subscriber> = Vec::new();
    let mut j: usize = 0;
    proof {
        assert(subs@.take(0) =~= Seq::<Subscriber>::empty());
        assert(Seq::<Subscriber>::empty().filter(|s: Subscriber| !disconnected@.contains(s.id))
            =~= Seq::<Subscriber>::empty()) by {
            reveal(Seq::filter);
        }
    }
    while j < n
        invariant
            n == subs@.len(),
            j <= n,
            out@ == surviving(subs@.take(j as int), disconnected@),
        decreases n - j,
    {
        let s = subs[j];
        if !disconnected.contains(&s.id) {
            out.push(s);
        }
        proof {
            assert(subs@.take(j as int + 1) =~= subs@.take(j as int).push(subs@[j as int]));
            Seq::lemma_filter_push(
                subs@.take(j as int),
                subs@[j as int],
                |s: Subscriber| !disconnected@.contains(s.id),
            );
        }
        j = j + 1;
    }
    proof {
        assert(subs@.take(n as int) =~= subs@);
    }
    out
}

/// Lazy eviction: evicting the ids in `failed` from a topic removes exactly
/// the subscribers whose id is in `failed` — a subscriber is gone from every
/// later snapshot of its topic as soon as its failed delivery is reported,
/// and one whose id was not reported is retained, even when it was absent
/// from the snapshot the reporter dispatched to. Every other topic is
/// untouched.
pub proof fn lemma_lazy_eviction(
    m: Map<Seq<char>, Seq<Subscriber>>,
    topic: Seq<char>,
    failed: Set<usize>,
    s: Subscriber,
)
    ensures
        topic_snapshot(registry_after_evict(m, topic, failed), topic).contains(s)
            <==> (topic_snapshot(m, topic).contains(s) && !failed.contains(s.id)),
        forall|t: Seq<char>|
            t != topic ==> topic_snapshot(registry_after_evict(m, topic, failed), t)
                == topic_snapshot(m, t),
{
    broadcast use vstd::seq_lib::group_filter_ensures;

    let pred = |x: Subscriber| !failed.contains(x.id);
    if m.contains_key(topic) {
        let subs = m[topic];
        let kept = surviving(subs, failed);
        if kept.contains(s) {
            let i = choose|i: int| 0 <= i < kept.len() && kept[i] == s;
            assert(pred(kept[i]));
            Seq::lemma_filter_contains_rev(subs, pred, s);
        }
        if subs.contains(s) && !failed.contains(s.id) {
            let i = choose|i: int| 0 <= i < subs.len() && subs[i] == s;
            assert(pred(subs[i]));
            assert(kept.contains(subs[i]));
        }
    }
}

/// No replay: a message dispatched before a subscriber joined its topic was
/// addressed to the registry's snapshot from before the join, which the join
/// does not contain — while every snapshot taken after the join carries the
/// new subscriber.
pub proof fn lemma_no_replay(
    m: Map<Seq<char>, Seq<Subscriber>>,
    topic: Seq<char>,
    s: Subscriber,
)
    requires
        !topic_snapshot(m, topic).contains(s),
    ensures
        !topic_snapshot(m, topic).contains(s),
        topic_snapshot(registry_after_add(m, topic, s), topic).contains(s),
{
    let after = topic_snapshot(registry_after_add(m, topic, s), topic);
    assert(after == topic_snapshot(m, topic).push(s));
    assert(after[after.len() - 1] == s);
}

} // verus!
