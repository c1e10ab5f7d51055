//! Per-connection subscription state: a set of subscriptions keyed by a
//! connection-scoped subscription id. A new request under an existing id
//! replaces the prior subscription; closing is idempotent.

use vstd::prelude::*;

use crate::filter::any_filter_matches;
use crate::msg::{SignedEvent, EventData, EventFilter, FilterData};

verus! {

/// One active subscription: its connection-scoped id and its filter set.
pub struct Subscription {
    pub id: String,
    pub filters: Vec<EventFilter>,
}

/// Mathematical view of a [`Subscription`].
pub struct SubscriptionData {
    pub id: Seq<char>,
    pub filters: Seq<FilterData>,
}

impl View for Subscription {
    type V = SubscriptionData;

    open spec fn view(&self) -> SubscriptionData {
        SubscriptionData { id: self.id@, filters: self.filters.deep_view() }
    }
}

impl DeepView for Subscription {
    type V = SubscriptionData;

    open spec fn deep_view(&self) -> SubscriptionData {
        self.view()
    }
}

/// Subscription ids are pairwise distinct: the invariant of one
/// connection's subscription state.
pub open spec fn distinct_ids(s: Seq<SubscriptionData>) -> bool {
    forall|i: int, j: int|
        0 <= i < j < s.len() ==> #[trigger] s[i].id != #[trigger] s[j].id
}

/// Whether the sequence holds a subscription under `id`.
pub open spec fn has_sub(s: Seq<SubscriptionData>, id: Seq<char>) -> bool {
    exists|i: int| 0 <= i < s.len() && #[trigger] s[i].id == id
}

/// The sequence after a request under `id` with filter set `fs`: the
/// existing subscription under `id` is replaced in place, or a new one is
/// appended.
pub open spec fn upsert_subs(
    s: Seq<SubscriptionData>,
    id: Seq<char>,
    fs: Seq<FilterData>,
) -> Seq<SubscriptionData> {
    if has_sub(s, id) {
        let i = choose|i: int| 0 <= i < s.len() && #[trigger] s[i].id == id;
        s.update(i, SubscriptionData { id, filters: fs })
    } else {
        s.push(SubscriptionData { id, filters: fs })
    }
}

/// The sequence after closing `id`: the subscription under `id` is removed
/// if present, and nothing changes otherwise.
pub open spec fn remove_sub(s: Seq<SubscriptionData>, id: Seq<char>) -> Seq<SubscriptionData> {
    if has_sub(s, id) {
        let i = choose|i: int| 0 <= i < s.len() && #[trigger] s[i].id == id;
        s.remove(i)
    } else {
        s
    }
}

/// The ids of the subscriptions whose filter set the event matches, in
/// subscription order: the fan-out targets of one validated event.
pub open spec fn fanout_ids(s: Seq<SubscriptionData>, e: EventData) -> Seq<Seq<char>>
    decreases s.len(),
{
    if s.len() == 0 {
        Seq::empty()
    } else {
        fanout_ids(s.drop_last(), e) + if any_filter_matches(s.last().filters, e) {
            seq![s.last().id]
        } else {
            Seq::empty()
        }
    }
}

/// A request keeps the ids pairwise distinct, and afterwards one is held
/// under the requested id.
pub proof fn lemma_upsert_distinct(s: Seq<SubscriptionData>, id: Seq<char>, fs: Seq<FilterData>)
    requires
        distinct_ids(s),
    ensures
        distinct_ids(upsert_subs(s, id, fs)),
        has_sub(upsert_subs(s, id, fs), id),
{
    let r = upsert_subs(s, id, fs);
    if has_sub(s, id) {
        let i = choose|i: int| 0 <= i < s.len() && #[trigger] s[i].id == id;
        assert forall|a: int, b: int|
            0 <= a < b < r.len() implies #[trigger] r[a].id != #[trigger] r[b].id by {
            assert(r[a].id == s[a].id);
            assert(r[b].id == s[b].id);
        }
        assert(r[i].id == id);
    } else {
        assert forall|a: int, b: int|
            0 <= a < b < r.len() implies #[trigger] r[a].id != #[trigger] r[b].id by {
            if b == s.len() {
                assert(r[a] == s[a]);
                assert(!has_sub(s, id));
            }
        }
        assert(r[s.len() as int].id == id);
    }
}

/// Closing keeps the ids pairwise distinct, and afterwards none is held
/// under the closed id.
pub proof fn lemma_remove_distinct(s: Seq<SubscriptionData>, id: Seq<char>)
    requires
        distinct_ids(s),
    ensures
        distinct_ids(remove_sub(s, id)),
        !has_sub(remove_sub(s, id), id),
{
    let r = remove_sub(s, id);
    if has_sub(s, id) {
        let i = choose|i: int| 0 <= i < s.len() && #[trigger] s[i].id == id;
        assert forall|a: int, b: int|
            0 <= a < b < r.len() implies #[trigger] r[a].id != #[trigger] r[b].id by {
            assert(r[a] == if a < i { s[a] } else { s[a + 1] });
            assert(r[b] == if b < i { s[b] } else { s[b + 1] });
        }
        assert forall|k: int| 0 <= k < r.len() implies #[trigger] r[k].id != id by {
            assert(r[k] == if k < i { s[k] } else { s[k + 1] });
            if k < i {
                assert(s[k].id != s[i].id);
            } else {
                assert(s[k + 1].id != s[i].id);
            }
        }
    }
}

/// Closing is idempotent on the state: once the subscription under `id`
/// is gone, closing the same id again changes nothing.
pub proof fn lemma_remove_idempotent(s: Seq<SubscriptionData>, id: Seq<char>)
    requires
        distinct_ids(s),
    ensures
        remove_sub(remove_sub(s, id), id) == remove_sub(s, id),
{
    lemma_remove_distinct(s, id);
}

/// An id is a fan-out target exactly when some subscription is held under
/// it whose filter set the event matches.
pub proof fn lemma_fanout_membership(s: Seq<SubscriptionData>, e: EventData, id: Seq<char>)
    ensures
        fanout_ids(s, e).contains(id) <==> exists|i: int|
            0 <= i < s.len() && #[trigger] s[i].id == id && any_filter_matches(s[i].filters, e),
    decreases s.len(),
{
    if s.len() == 0 {
    } else {
        let pre = s.drop_last();
        lemma_fanout_membership(pre, e, id);
        let tail = if any_filter_matches(s.last().filters, e) {
            seq![s.last().id]
        } else {
            Seq::<Seq<char>>::empty()
        };
        assert(fanout_ids(s, e) == fanout_ids(pre, e) + tail);
        if fanout_ids(s, e).contains(id) {
            let k = choose|k: int|
                0 <= k < fanout_ids(s, e).len() && fanout_ids(s, e)[k] == id;
            if k < fanout_ids(pre, e).len() {
                assert(fanout_ids(pre, e)[k] == id);
                assert(fanout_ids(pre, e).contains(id));
                let i = choose|i: int|
                    0 <= i < pre.len() && #[trigger] pre[i].id == id && any_filter_matches(
                        pre[i].filters,
                        e,
                    );
                assert(s[i] == pre[i]);
                assert(s[i].id == id && any_filter_matches(s[i].filters, e));
            } else {
                assert(tail.len() > 0);
                assert(fanout_ids(s, e)[k] == tail[k - fanout_ids(pre, e).len()]);
                assert(s[s.len() - 1].id == id && any_filter_matches(s[s.len() - 1].filters, e));
            }
        }
        if exists|i: int|
            0 <= i < s.len() && #[trigger] s[i].id == id && any_filter_matches(s[i].filters, e) {
            let i = choose|i: int|
                0 <= i < s.len() && #[trigger] s[i].id == id && any_filter_matches(
                    s[i].filters,
                    e,
                );
            if i < s.len() - 1 {
                assert(pre[i] == s[i]);
                assert(pre[i].id == id && any_filter_matches(pre[i].filters, e));
                assert(fanout_ids(pre, e).contains(id));
                let k = choose|k: int|
                    0 <= k < fanout_ids(pre, e).len() && fanout_ids(pre, e)[k] == id;
                assert(fanout_ids(s, e)[k] == id);
                assert(fanout_ids(s, e).contains(id));
            } else {
                assert(s.last() == s[i]);
                assert(tail == seq![id]);
                assert(fanout_ids(s, e)[fanout_ids(pre, e).len() as int] == id);
                assert(fanout_ids(s, e).contains(id));
            }
        }
    }
}

/// The set of subscriptions one connection holds. Its invariant: no two
/// subscriptions share an id.
pub struct SubscriptionSet {
    subs: Vec<Subscription>,
}

impl View for SubscriptionSet {
    type V = Seq<SubscriptionData>;

    closed spec fn view(&self) -> Seq<SubscriptionData> {
        self.subs.deep_view()
    }
}

impl SubscriptionSet {
    /// Subscription ids are pairwise distinct within a connection.
    pub open spec fn wf(&self) -> bool {
        distinct_ids(self@)
    }

    /// A fresh connection holds no subscriptions.
    pub fn new() -> (r: SubscriptionSet)
        ensures
            r@ == Seq::<SubscriptionData>::empty(),
            r.wf(),
    {
        let r = SubscriptionSet { subs: Vec::new() };
        assert(r@ =~~= Seq::<SubscriptionData>::empty());
        r
    }

    /// The index of the subscription under `id`, if one is held.
    fn find(&self, id: &String) -> (r: Option<usize>)
        ensures
            match r {
                Some(i) => i < self@.len() && self@[i as int].id == id@,
                None => !has_sub(self@, id@),
            },
    {
        let mut i: usize = 0;
        while i < self.subs.len()
            invariant
                i <= self.subs.len(),
                forall|k: int| 0 <= k < i ==> #[trigger] self@[k].id != id@,
            decreases self.subs.len() - i,
        {
            if self.subs[i].id.eq(id) {
                assert(self@[i as int].id == id@);
                return Some(i);
            }
            i = i + 1;
        }
        None
    }

    /// Whether this connection currently holds a subscription under `id`.
    pub fn is_subscribed(&self, id: &String) -> (r: bool)
        ensures
            r == has_sub(self@, id@),
    {
        match self.find(id) {
            Some(_) => true,
            None => false,
        }
    }

    /// Serves a request: replaces the subscription under `id` if one is
    /// held, and appends a new one otherwise.
    pub fn subscribe(&mut self, id: String, filters: Vec<EventFilter>)
        requires
            old(self).wf(),
        ensures
            final(self).wf(),
            final(self)@ == upsert_subs(old(self)@, id@, filters.deep_view()),
    {
        let ghost s0 = self@;
        let ghost idv = id@;
        let ghost fsv = filters.deep_view();
        match self.find(&id) {
            Some(i) => {
                let sub = Subscription { id, filters };
                self.subs.set(i, sub);
                proof {
                    assert(has_sub(s0, idv));
                    let j = choose|j: int| 0 <= j < s0.len() && #[trigger] s0[j].id == idv;
                    assert(s0[i as int].id == idv);
                    assert(j == i);
                    assert(self@ =~~= upsert_subs(s0, idv, fsv));
                }
            },
            None => {
                let sub = Subscription { id, filters };
                self.subs.push(sub);
                proof {
                    assert(self@ =~~= s0.push(SubscriptionData { id: idv, filters: fsv }));
                }
            },
        }
    }

    /// Serves a close: removes the subscription under `id` if one is held.
    /// Returns whether one was held; closing an unknown id changes nothing.
    pub fn unsubscribe(&mut self, id: &String) -> (r: bool)
        requires
            old(self).wf(),
        ensures
            final(self).wf(),
            final(self)@ == remove_sub(old(self)@, id@),
            r == has_sub(old(self)@, id@),
    {
        let ghost s0 = self@;
        match self.find(id) {
            Some(i) => {
                self.subs.remove(i);
                proof {
                    let j = choose|j: int| 0 <= j < s0.len() && #[trigger] s0[j].id == id@;
                    assert(j == i);
                    assert(self@ =~~= remove_sub(s0, id@));
                    assert forall|a: int, b: int|
                        0 <= a < b < self@.len() implies #[trigger] self@[a].id != #[trigger] self@[
                        b
                    ].id by {
                        assert(self@[a] == if a < i { s0[a] } else { s0[a + 1] });
                        assert(self@[b] == if b < i { s0[b] } else { s0[b + 1] });
                    }
                }
                true
            },
            None => false,
        }
    }

    /// The ids of the held subscriptions that the event matches, in order.
    pub fn matching_ids(&self, e: &SignedEvent) -> (r: Vec<String>)
        ensures
            r.deep_view() == fanout_ids(self@, e@),
    {
        let mut r: Vec<String> = Vec::new();
        let mut i: usize = 0;
        while i < self.subs.len()
            invariant
                i <= self.subs.len(),
                r.deep_view() =~~= fanout_ids(self@.take(i as int), e@),
            decreases self.subs.len() - i,
        {
            let sub = &self.subs[i];
            proof {
                assert(self@.take(i as int + 1).drop_last() =~~= self@.take(i as int));
                assert(self@.take(i as int + 1).last() == self@[i as int]);
                assert(self@[i as int] == sub.deep_view());
            }
            if crate::filter::event_matches_any(e, &sub.filters) {
                r.push(sub.id.clone());
            }
            assert(r.deep_view() =~~= fanout_ids(self@.take(i as int + 1), e@));
            i = i + 1;
        }
        assert(self@.take(self.subs.len() as int) =~~= self@);
        r
    }

    /// How many subscriptions the connection holds.
    pub fn count(&self) -> (r: usize)
        ensures
            r == self@.len(),
    {
        self.subs.len()
    }
}

} // verus!
