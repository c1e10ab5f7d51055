//! The cross-connection subscription registry: the one structure shared
//! between connection tasks. It tracks, per connection, the subscriptions
//! the dispatcher installed, answers fan-out lookups for a validated
//! event, and releases a connection's entries when the connection ends.
//! All mutation and lookup go through this single structure; the caller
//! serializes access to it.

use vstd::prelude::*;

use crate::msg::{EventData, EventFilter, SignedEvent};
use crate::subs::{
    distinct_ids, fanout_ids, lemma_upsert_distinct, lemma_remove_distinct, remove_sub,
    upsert_subs, SubscriptionData, SubscriptionSet,
};

verus! {

/// One connection's entry: its identifier and its subscriptions.
pub struct ConnEntry {
    pub conn: u64,
    pub subs: SubscriptionSet,
}

/// Mathematical view of a [`ConnEntry`].
pub struct ConnEntryData {
    pub conn: u64,
    pub subs: Seq<SubscriptionData>,
}

impl View for ConnEntry {
    type V = ConnEntryData;

    open spec fn view(&self) -> ConnEntryData {
        ConnEntryData { conn: self.conn, subs: self.subs@ }
    }
}

impl DeepView for ConnEntry {
    type V = ConnEntryData;

    open spec fn deep_view(&self) -> ConnEntryData {
        self.view()
    }
}

/// One fan-out target: a connection and the subscription id to name in
/// the `EVENT` frame delivered to it.
pub struct Delivery {
    pub conn: u64,
    pub subscription_id: String,
}

/// Mathematical view of a [`Delivery`].
pub struct DeliveryData {
    pub conn: u64,
    pub subscription_id: Seq<char>,
}

impl View for Delivery {
    type V = DeliveryData;

    open spec fn view(&self) -> DeliveryData {
        DeliveryData { conn: self.conn, subscription_id: self.subscription_id@ }
    }
}

impl DeepView for Delivery {
    type V = DeliveryData;

    open spec fn deep_view(&self) -> DeliveryData {
        self.view()
    }
}

/// Whether the registry holds an entry for the connection.
pub open spec fn has_conn(s: Seq<ConnEntryData>, conn: u64) -> bool {
    exists|i: int| 0 <= i < s.len() && #[trigger] s[i].conn == conn
}

/// The registry after a request from `conn`: its entry gains or replaces
/// the subscription, and a first request creates the entry.
pub open spec fn reg_subscribe(
    s: Seq<ConnEntryData>,
    conn: u64,
    id: Seq<char>,
    fs: Seq<crate::msg::FilterData>,
) -> Seq<ConnEntryData> {
    if has_conn(s, conn) {
        let i = choose|i: int| 0 <= i < s.len() && #[trigger] s[i].conn == conn;
        s.update(i, ConnEntryData { conn, subs: upsert_subs(s[i].subs, id, fs) })
    } else {
        s.push(ConnEntryData { conn, subs: upsert_subs(Seq::empty(), id, fs) })
    }
}

/// The registry after a close from `conn`: the subscription leaves its
/// entry; an unknown connection changes nothing.
pub open spec fn reg_unsubscribe(s: Seq<ConnEntryData>, conn: u64, id: Seq<char>) -> Seq<
    ConnEntryData,
> {
    if has_conn(s, conn) {
        let i = choose|i: int| 0 <= i < s.len() && #[trigger] s[i].conn == conn;
        s.update(i, ConnEntryData { conn, subs: remove_sub(s[i].subs, id) })
    } else {
        s
    }
}

/// The registry after a connection ends: its whole entry is released, so
/// no dangling interest remains.
pub open spec fn reg_drop_conn(s: Seq<ConnEntryData>, conn: u64) -> Seq<ConnEntryData> {
    if has_conn(s, conn) {
        let i = choose|i: int| 0 <= i < s.len() && #[trigger] s[i].conn == conn;
        s.remove(i)
    } else {
        s
    }
}

/// The fan-out targets of one validated event across every connection, in
/// registry order: each connection contributes its matching subscription
/// ids in subscription order.
pub open spec fn reg_fanout(s: Seq<ConnEntryData>, e: EventData) -> Seq<DeliveryData>
    decreases s.len(),
{
    if s.len() == 0 {
        Seq::empty()
    } else {
        reg_fanout(s.drop_last(), e) + fanout_ids(s.last().subs, e).map_values(
            |sid: Seq<char>| DeliveryData { conn: s.last().conn, subscription_id: sid },
        )
    }
}

/// The shared registry. Its invariant: one entry per connection, and each
/// entry's subscription ids pairwise distinct.
pub struct Registry {
    entries: Vec<ConnEntry>,
}

impl View for Registry {
    type V = Seq<ConnEntryData>;

    closed spec fn view(&self) -> Seq<ConnEntryData> {
        self.entries.deep_view()
    }
}

impl Registry {
    /// One entry per connection; each entry well formed.
    pub open spec fn wf(&self) -> bool {
        &&& forall|i: int, j: int|
            0 <= i < j < self@.len() ==> #[trigger] self@[i].conn != #[trigger] self@[j].conn
        &&& forall|i: int| 0 <= i < self@.len() ==> distinct_ids(#[trigger] self@[i].subs)
    }

    /// A fresh registry holds no interest at all.
    pub fn new() -> (r: Registry)
        ensures
            r@ == Seq::<ConnEntryData>::empty(),
            r.wf(),
    {
        let r = Registry { entries: Vec::new() };
        assert(r@ =~~= Seq::<ConnEntryData>::empty());
        r
    }

    /// The index of the connection's entry, if one is held.
    fn find_conn(&self, conn: u64) -> (r: Option<usize>)
        ensures
            match r {
                Some(i) => i < self@.len() && self@[i as int].conn == conn,
                None => !has_conn(self@, conn),
            },
    {
        let mut i: usize = 0;
        while i < self.entries.len()
            invariant
                i <= self.entries.len(),
                forall|k: int| 0 <= k < i ==> #[trigger] self@[k].conn != conn,
            decreases self.entries.len() - i,
        {
            if self.entries[i].conn == conn {
                assert(self@[i as int].conn == conn);
                return Some(i);
            }
            i = i + 1;
        }
        None
    }

    /// Records a request from `conn`: exactly [`reg_subscribe`].
    pub fn subscribe(&mut self, conn: u64, id: String, filters: Vec<EventFilter>)
        requires
            old(self).wf(),
        ensures
            final(self).wf(),
            final(self)@ == reg_subscribe(old(self)@, conn, id@, filters.deep_view()),
    {
        let ghost s0 = self@;
        let ghost idv = id@;
        let ghost fsv = filters.deep_view();
        match self.find_conn(conn) {
            Some(i) => {
                let mut entry = self.entries.remove(i);
                proof {
                    lemma_upsert_distinct(s0[i as int].subs, idv, fsv);
                }
                entry.subs.subscribe(id, filters);
                self.entries.insert(i, entry);
                proof {
                    let j = choose|j: int| 0 <= j < s0.len() && #[trigger] s0[j].conn == conn;
                    assert(j == i);
                    assert(self@ =~~= reg_subscribe(s0, conn, idv, fsv));
                }
            },
            None => {
                let mut subs = SubscriptionSet::new();
                proof {
                    lemma_upsert_distinct(Seq::empty(), idv, fsv);
                }
                subs.subscribe(id, filters);
                self.entries.push(ConnEntry { conn, subs });
                proof {
                    assert(self@ =~~= reg_subscribe(s0, conn, idv, fsv));
                }
            },
        }
    }

    /// Records a close from `conn`: exactly [`reg_unsubscribe`].
    pub fn unsubscribe(&mut self, conn: u64, id: &String)
        requires
            old(self).wf(),
        ensures
            final(self).wf(),
            final(self)@ == reg_unsubscribe(old(self)@, conn, id@),
    {
        let ghost s0 = self@;
        match self.find_conn(conn) {
            Some(i) => {
                let mut entry = self.entries.remove(i);
                proof {
                    lemma_remove_distinct(s0[i as int].subs, id@);
                }
                entry.subs.unsubscribe(id);
                self.entries.insert(i, entry);
                proof {
                    let j = choose|j: int| 0 <= j < s0.len() && #[trigger] s0[j].conn == conn;
                    assert(j == i);
                    assert(self@ =~~= reg_unsubscribe(s0, conn, id@));
                }
            },
            None => {},
        }
    }

    /// Releases every subscription a closing connection still holds:
    /// exactly [`reg_drop_conn`], so the registry keeps no dangling
    /// interest for it.
    pub fn drop_conn(&mut self, conn: u64)
        requires
            old(self).wf(),
        ensures
            final(self).wf(),
            final(self)@ == reg_drop_conn(old(self)@, conn),
            !has_conn(final(self)@, conn),
    {
        let ghost s0 = self@;
        match self.find_conn(conn) {
            Some(i) => {
                self.entries.remove(i);
                proof {
                    let j = choose|j: int| 0 <= j < s0.len() && #[trigger] s0[j].conn == conn;
                    assert(j == i);
                    assert(self@ =~~= reg_drop_conn(s0, conn));
                    assert forall|a: int, b: int|
                        0 <= a < b < self@.len() implies #[trigger] self@[a].conn != #[trigger] self@[
                        b
                    ].conn by {
                        assert(self@[a] == if a < i { s0[a] } else { s0[a + 1] });
                        assert(self@[b] == if b < i { s0[b] } else { s0[b + 1] });
                    }
                    assert forall|k: int| 0 <= k < self@.len() implies distinct_ids(
                        #[trigger] self@[k].subs,
                    ) by {
                        assert(self@[k] == if k < i { s0[k] } else { s0[k + 1] });
                    }
                    assert forall|k: int| 0 <= k < self@.len() implies #[trigger] self@[k].conn
                        != conn by {
                        assert(self@[k] == if k < i { s0[k] } else { s0[k + 1] });
                        if k < i {
                            assert(s0[k].conn != s0[i as int].conn);
                        } else {
                            assert(s0[k + 1].conn != s0[i as int].conn);
                        }
                    }
                }
            },
            None => {},
        }
    }

    /// The fan-out targets of one validated event: exactly [`reg_fanout`]
    /// of the registry's view.
    pub fn fanout(&self, e: &SignedEvent) -> (r: Vec<Delivery>)
        ensures
            r.deep_view() == reg_fanout(self@, e@),
    {
        let mut r: Vec<Delivery> = Vec::new();
        let mut i: usize = 0;
        while i < self.entries.len()
            invariant
                i <= self.entries.len(),
                r@.len() == reg_fanout(self@.take(i as int), e@).len(),
                forall|k: int|
                    0 <= k < r@.len() ==> #[trigger] r@[k]@ == reg_fanout(
                        self@.take(i as int),
                        e@,
                    )[k],
            decreases self.entries.len() - i,
        {
            let entry = &self.entries[i];
            let ghost base = reg_fanout(self@.take(i as int), e@);
            let ghost next = reg_fanout(self@.take(i as int + 1), e@);
            proof {
                assert(self@.take(i as int + 1).drop_last() =~~= self@.take(i as int));
                assert(self@.take(i as int + 1).last() == self@[i as int]);
                assert(self@[i as int] == entry.deep_view());
                assert(next == base + fanout_ids(entry.subs@, e@).map_values(
                    |sid: Seq<char>| DeliveryData { conn: entry.conn, subscription_id: sid },
                ));
            }
            let ids = entry.subs.matching_ids(e);
            let ghost maps = fanout_ids(entry.subs@, e@).map_values(
                |sid: Seq<char>| DeliveryData { conn: entry.conn, subscription_id: sid },
            );
            let mut j: usize = 0;
            while j < ids.len()
                invariant
                    j <= ids.len(),
                    ids.deep_view() == fanout_ids(entry.subs@, e@),
                    maps == fanout_ids(entry.subs@, e@).map_values(
                        |sid: Seq<char>| DeliveryData { conn: entry.conn, subscription_id: sid },
                    ),
                    maps.len() == ids@.len(),
                    r@.len() == base.len() + j,
                    forall|k: int| 0 <= k < base.len() ==> #[trigger] r@[k]@ == base[k],
                    forall|k: int|
                        base.len() <= k < r@.len() ==> #[trigger] r@[k]@ == maps[k - base.len()],
                decreases ids.len() - j,
            {
                r.push(Delivery { conn: entry.conn, subscription_id: ids[j].clone() });
                proof {
                    assert(ids.deep_view()[j as int] == ids@[j as int]@);
                    assert(maps[j as int] == (DeliveryData {
                        conn: entry.conn,
                        subscription_id: ids.deep_view()[j as int],
                    }));
                    assert(r@[base.len() + j as int]@ == maps[j as int]);
                }
                j = j + 1;
            }
            proof {
                assert(maps.len() == ids@.len());
                assert(next.len() == base.len() + maps.len());
                assert(forall|k: int|
                    0 <= k < base.len() ==> #[trigger] next[k] == base[k]);
                assert(forall|k: int|
                    base.len() <= k < next.len() ==> #[trigger] next[k] == maps[k - base.len()]);
            }
            i = i + 1;
        }
        proof {
            assert(self@.take(self.entries@.len() as int) =~~= self@);
            assert(forall|k: int|
                0 <= k < r@.len() ==> #[trigger] r.deep_view()[k] == r@[k]@);
            assert(r.deep_view() =~~= reg_fanout(self@, e@));
        }
        r
    }
}

} // verus!
