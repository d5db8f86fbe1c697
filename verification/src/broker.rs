//! Connection acceptance, id assignment, and the broker's serving state.
//!
//! The acceptor assigns every accepted connection — publisher or subscriber —
//! the next value of a strictly increasing counter, so ids are pairwise
//! distinct across all connections, however they interleave. Only
//! subscribers retain their id: it is the sole key used for eviction, and no
//! two live subscribers ever share one.

use crate::handshake::JoinType;
use crate::handshake::classify_join_line;
use crate::handshake::spec_classify;
use crate::publisher::PublisherAction;
use crate::publisher::publisher_step;
use crate::registry::Subscriber;
use crate::registry::SubscriberList;
use crate::registry::registry_after_add;
use crate::registry::registry_after_evict;
use crate::registry::surviving;
use crate::registry::topic_snapshot;
use std::collections::HashSet;
use vstd::prelude::*;

verus! {

broadcast use {
    vstd::seq_lib::group_filter_ensures,
    vstd::seq_lib::group_seq_properties,
};

/// The ids within `subs` are pairwise distinct.
pub open spec fn ids_unique(subs: Seq<Subscriber>) -> bool {
    forall|i: int, j: int|
        0 <= i < j < subs.len() ==> (#[trigger] subs[i]).id != (#[trigger] subs[j]).id
}

/// Every id within `subs` is below `bound`.
pub open spec fn ids_below(subs: Seq<Subscriber>, bound: usize) -> bool {
    forall|i: int| 0 <= i < subs.len() ==> (#[trigger] subs[i]).id < bound
}

/// Some subscriber in `subs` carries `id`.
pub open spec fn id_in(subs: Seq<Subscriber>, id: usize) -> bool {
    exists|i: int| 0 <= i < subs.len() && (#[trigger] subs[i]).id == id
}

/// No id is live under two distinct topics of `m`.
pub open spec fn topics_id_disjoint(m: Map<Seq<char>, Seq<Subscriber>>) -> bool {
    forall|t1: Seq<char>, t2: Seq<char>, id: usize|
        m.contains_key(t1) && m.contains_key(t2) && t1 != t2 ==> !(#[trigger] id_in(m[t1], id)
            && #[trigger] id_in(m[t2], id))
}

/// The broker's serving state: the topic registry, and the counter whose
/// value is the id given to the next accepted connection.
pub struct Broker {
    subscribers: SubscriberList,
    next_id: usize,
}

impl Broker {
    /// The current topic → subscribers mapping.
    pub closed spec fn registry(self) -> Map<Seq<char>, Seq<Subscriber>> {
        self.subscribers@
    }

    /// The id the next accepted connection will be assigned.
    pub closed spec fn id_counter(self) -> usize {
        self.next_id
    }

    /// `id` is carried by some live subscriber.
    pub open spec fn id_registered(self, id: usize) -> bool {
        exists|t: Seq<char>|
            #[trigger] self.registry().contains_key(t) && id_in(self.registry()[t], id)
    }

    /// Well-formed: the registry is coherent, all live ids are pairwise
    /// distinct (within and across topics), and every live id was assigned
    /// by the counter, hence lies below it.
    pub closed spec fn wf(self) -> bool {
        &&& self.subscribers.wf()
        &&& forall|t: Seq<char>| #[trigger]
            self.registry().contains_key(t) ==> ids_unique(self.registry()[t]) && ids_below(
                self.registry()[t],
                self.next_id,
            )
        &&& topics_id_disjoint(self.registry())
    }

    /// A broker with an empty registry, assigning ids from 0 on.
    pub fn new() -> (r: Broker)
        ensures
            r.wf(),
            r.registry() == Map::<Seq<char>, Seq<Subscriber>>::empty(),
            r.id_counter() == 0,
    {
        Broker { subscribers: SubscriberList::new(), next_id: 0 }
    }

    /// The id the next accepted connection will be assigned — also how many
    /// connections have been accepted. Lets a caller see that the counter is
    /// not exhausted before accepting.
    pub fn next_connection_id(&self) -> (r: usize)
        ensures
            r == self.id_counter(),
    {
        self.next_id
    }

    /// Assigns the next id to a freshly accepted connection. Ids are consumed
    /// for every accepted connection, publishers included; the registry is
    /// untouched, and the assigned id belongs to no live subscriber.
    pub fn accept_connection(&mut self) -> (id: usize)
        requires
            old(self).wf(),
            old(self).id_counter() < usize::MAX,
        ensures
            final(self).wf(),
            id == old(self).id_counter(),
            final(self).id_counter() == old(self).id_counter() + 1,
            final(self).registry() == old(self).registry(),
            !old(self).id_registered(id),
    {
        let id = self.next_id;
        self.next_id = self.next_id + 1;
        proof {
            assert forall|t: Seq<char>| #[trigger]
                self.registry().contains_key(t) implies ids_unique(self.registry()[t])
                && ids_below(self.registry()[t], self.next_id) by {
                assert(ids_below(self.registry()[t], id));
            }
            assert forall|t: Seq<char>| #[trigger]
                old(self).registry().contains_key(t) implies !id_in(
                old(self).registry()[t],
                id,
            ) by {
                if id_in(old(self).registry()[t], id) {
                    let i = choose|i: int|
                        0 <= i < old(self).registry()[t].len() && (#[trigger] old(
                            self,
                        ).registry()[t][i]).id == id;
                    assert(old(self).registry()[t][i].id < id);
                }
            }
        }
        id
    }

    /// Registers a subscriber under its topic. The id must be one the
    /// counter has assigned, and a connection registers at most once, so the
    /// id is live nowhere yet.
    pub fn register_subscriber(&mut self, topic_name: String, subscriber: Subscriber)
        requires
            old(self).wf(),
            subscriber.id < old(self).id_counter(),
            !old(self).id_registered(subscriber.id),
        ensures
            final(self).wf(),
            final(self).id_counter() == old(self).id_counter(),
            final(self).registry() == registry_after_add(
                old(self).registry(),
                topic_name@,
                subscriber,
            ),
    {
        proof {
            // the id is live nowhere: unfold the negated existential per topic
            assert forall|t: Seq<char>| #[trigger]
                old(self).registry().contains_key(t) implies !id_in(
                old(self).registry()[t],
                subscriber.id,
            ) by {}
        }
        self.subscribers.add(topic_name, subscriber);
        proof {
            let k = topic_name@;
            let pre = old(self).registry();
            let post = self.registry();
            let snap = topic_snapshot(pre, k);
            assert(post == pre.insert(k, snap.push(subscriber)));
            assert(ids_unique(snap) && ids_below(snap, self.next_id));
            assert forall|t: Seq<char>| #[trigger]
                post.contains_key(t) implies ids_unique(post[t]) && ids_below(
                post[t],
                self.next_id,
            ) by {
                if t == k {
                    let grown = snap.push(subscriber);
                    assert forall|i: int, j: int|
                        0 <= i < j < grown.len() implies (#[trigger] grown[i]).id != (
                    #[trigger] grown[j]).id by {
                        if j == grown.len() - 1 {
                            if pre.contains_key(k) {
                                assert(id_in(snap, snap[i].id));
                            }
                        }
                    }
                    assert(ids_below(grown, self.next_id));
                }
            }
            assert forall|t1: Seq<char>, t2: Seq<char>, id: usize|
                post.contains_key(t1) && post.contains_key(t2) && t1 != t2 implies !(
            #[trigger] id_in(post[t1], id) && #[trigger] id_in(post[t2], id)) by {
                if id_in(post[t1], id) && id_in(post[t2], id) {
                    if t1 == k || t2 == k {
                        let (tk, to) = if t1 == k { (t1, t2) } else { (t2, t1) };
                        assert(id_in(post[tk], id) && id_in(post[to], id));
                        assert(post[to] == pre[to]);
                        let grown = snap.push(subscriber);
                        let i = choose|i: int|
                            0 <= i < grown.len() && (#[trigger] grown[i]).id == id;
                        if i < grown.len() - 1 {
                            assert(id_in(snap, id));
                            assert(pre.contains_key(k));
                        } else {
                            assert(id == subscriber.id);
                            assert(!id_in(pre[to], id));
                        }
                    }
                }
            }
        }
    }

    /// Handles a connection's first line: classifies it and, when it is a
    /// valid subscribe request, registers the connection — with the given
    /// handle and its accepted id — under the requested topic. The registry
    /// changes exactly then: a failed handshake (upon which the caller sends
    /// [`crate::handshake::join_error_line`] and closes the connection) and a
    /// publisher handshake register nothing.
    pub fn handle_join(&mut self, id: usize, socket: u64, line: Vec<u8>) -> (r: (JoinType, String))
        requires
            old(self).wf(),
            id < old(self).id_counter(),
            !old(self).id_registered(id),
        ensures
            final(self).wf(),
            final(self).id_counter() == old(self).id_counter(),
            r.0 == spec_classify(crate::text::decoded_or_empty(line@)).0,
            r.1@ == spec_classify(crate::text::decoded_or_empty(line@)).1,
            r.0 is Subscriber ==> final(self).registry() == registry_after_add(
                old(self).registry(),
                r.1@,
                Subscriber { socket, id },
            ),
            !(r.0 is Subscriber) ==> final(self).registry() == old(self).registry(),
    {
        let (kind, topic) = classify_join_line(line);
        match kind {
            JoinType::Subscriber => {
                self.register_subscriber(topic.clone(), Subscriber { socket, id });
                (JoinType::Subscriber, topic)
            },
            _ => (kind, topic),
        }
    }

    /// One step of the publisher dispatch loop against this broker's
    /// registry; see [`publisher_step`]. The broker is read, never changed.
    pub fn publish(&mut self, topic_name: &str, line: Vec<u8>) -> (r: PublisherAction)
        requires
            old(self).wf(),
        ensures
            *final(self) == *old(self),
            match r {
                PublisherAction::Reply(response) => {
                    &&& crate::publisher::spec_parse_message(
                        crate::text::decoded_or_empty(line@),
                    ) is None
                    &&& response@ == crate::publisher::publish_error_text()
                },
                PublisherAction::Deliver(recipients, payload) => {
                    &&& crate::publisher::spec_parse_message(
                        crate::text::decoded_or_empty(line@),
                    ) is Some
                    &&& recipients@ == topic_snapshot(old(self).registry(), topic_name@)
                    &&& payload@ == crate::text::decoded_or_empty(line@)
                },
            },
    {
        publisher_step(&mut self.subscribers, topic_name, line)
    }

    /// Reports the failed deliveries of one dispatch: evicts the given ids
    /// from the topic, against the registry's current state.
    pub fn evict(&mut self, topic_name: String, failed: HashSet<usize>)
        requires
            old(self).wf(),
        ensures
            final(self).wf(),
            final(self).id_counter() == old(self).id_counter(),
            final(self).registry() == registry_after_evict(
                old(self).registry(),
                topic_name@,
                failed@,
            ),
    {
        let ghost pre = self.registry();
        self.subscribers.remove_disconnected(topic_name, failed);
        proof {
            let k = topic_name@;
            let post = self.registry();
            if pre.contains_key(k) {
                let pred = |s: Subscriber| !failed@.contains(s.id);
                lemma_filter_ids_unique(pre[k], pred);
                lemma_filter_ids_below(pre[k], pred, self.next_id);
                assert forall|t1: Seq<char>, t2: Seq<char>, id: usize|
                    post.contains_key(t1) && post.contains_key(t2) && t1 != t2 implies !(
                #[trigger] id_in(post[t1], id) && #[trigger] id_in(post[t2], id)) by {
                    if id_in(post[t1], id) && id_in(post[t2], id) {
                        lemma_surviving_id_in(pre, k, failed@, t1, id);
                        lemma_surviving_id_in(pre, k, failed@, t2, id);
                    }
                }
            }
        }
    }
}

/// Filtering a subscriber sequence keeps its ids pairwise distinct.
proof fn lemma_filter_ids_unique(subs: Seq<Subscriber>, pred: spec_fn(Subscriber) -> bool)
    requires
        ids_unique(subs),
    ensures
        ids_unique(subs.filter(pred)),
    decreases subs.len(),
{
    reveal(Seq::filter);
    if subs.len() > 0 {
        let rest = subs.drop_last();
        assert(ids_unique(rest));
        lemma_filter_ids_unique(rest, pred);
        let fr = rest.filter(pred);
        if pred(subs.last()) {
            let grown = fr.push(subs.last());
            assert forall|i: int, j: int|
                0 <= i < j < grown.len() implies (#[trigger] grown[i]).id != (
            #[trigger] grown[j]).id by {
                if j == grown.len() - 1 {
                    let x = grown[i];
                    assert(fr[i] == x);
                    assert(fr.contains(x));
                    Seq::lemma_filter_contains_rev(rest, pred, x);
                    let m = choose|m: int| 0 <= m < rest.len() && rest[m] == x;
                    assert(subs[m] == x);
                    assert(subs[m].id != subs[subs.len() - 1].id);
                }
            }
        }
    }
}

/// Filtering a subscriber sequence keeps every id below the same bound.
proof fn lemma_filter_ids_below(subs: Seq<Subscriber>, pred: spec_fn(Subscriber) -> bool, bound: usize)
    requires
        ids_below(subs, bound),
    ensures
        ids_below(subs.filter(pred), bound),
{
    let f = subs.filter(pred);
    assert forall|i: int| 0 <= i < f.len() implies (#[trigger] f[i]).id < bound by {
        let x = f[i];
        assert(f.contains(x));
        Seq::lemma_filter_contains_rev(subs, pred, x);
        let m = choose|m: int| 0 <= m < subs.len() && subs[m] == x;
        assert(subs[m].id < bound);
    }
}

/// An id live under `t` after an eviction at `k` was live under `t` before.
proof fn lemma_surviving_id_in(
    m: Map<Seq<char>, Seq<Subscriber>>,
    k: Seq<char>,
    failed: Set<usize>,
    t: Seq<char>,
    id: usize,
)
    requires
        m.contains_key(k),
        registry_after_evict(m, k, failed).contains_key(t),
        id_in(registry_after_evict(m, k, failed)[t], id),
    ensures
        m.contains_key(t),
        id_in(m[t], id),
{
    broadcast use vstd::seq_lib::group_filter_ensures;

    let post = registry_after_evict(m, k, failed);
    if t == k {
        let pred = |s: Subscriber| !failed.contains(s.id);
        let kept = surviving(m[k], failed);
        let i = choose|i: int| 0 <= i < kept.len() && (#[trigger] kept[i]).id == id;
        let x = kept[i];
        assert(kept.contains(x));
        Seq::lemma_filter_contains_rev(m[k], pred, x);
        let j = choose|j: int| 0 <= j < m[k].len() && m[k][j] == x;
        assert(id_in(m[k], id));
    }
}

/// Id uniqueness across accepted connections: an id the broker has already
/// assigned lies below the counter, every operation keeps the counter from
/// decreasing, and the next assigned id is the counter's value — so no id is
/// ever assigned twice.
pub proof fn lemma_assigned_ids_distinct(earlier_id: usize, b: Broker)
    requires
        earlier_id < b.id_counter(),
    ensures
        earlier_id != b.id_counter(),
{
}

/// A fresh id never collides with a live subscriber: every live id was
/// assigned earlier, hence lies below the counter.
pub proof fn lemma_fresh_id_unregistered(b: Broker)
    requires
        b.wf(),
    ensures
        !b.id_registered(b.id_counter()),
{
    assert forall|t: Seq<char>| #[trigger] b.registry().contains_key(t) implies !id_in(
        b.registry()[t],
        b.id_counter(),
    ) by {
        if id_in(b.registry()[t], b.id_counter()) {
            let i = choose|i: int|
                0 <= i < b.registry()[t].len() && (#[trigger] b.registry()[t][i]).id
                    == b.id_counter();
            assert(b.registry()[t][i].id < b.id_counter());
        }
    }
}

/// No two live subscribers share an id, within or across topics.
pub proof fn lemma_live_ids_unique(b: Broker, t1: Seq<char>, i: int, t2: Seq<char>, j: int)
    requires
        b.wf(),
        b.registry().contains_key(t1),
        b.registry().contains_key(t2),
        0 <= i < b.registry()[t1].len(),
        0 <= j < b.registry()[t2].len(),
        t1 != t2 || i != j,
    ensures
        b.registry()[t1][i].id != b.registry()[t2][j].id,
{
    if t1 == t2 {
        assert(ids_unique(b.registry()[t1]));
    } else {
        if b.registry()[t1][i].id == b.registry()[t2][j].id {
            let id = b.registry()[t1][i].id;
            assert(id_in(b.registry()[t1], id));
            assert(id_in(b.registry()[t2], id));
        }
    }
}

} // verus!
