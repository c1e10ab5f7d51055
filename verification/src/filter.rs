//! EventFilter matching: an event matches a filter when it satisfies every
//! constraint the filter carries, and matches a filter set when it matches
//! at least one filter of the set. Matching is a pure function of the event
//! and the filters.

use vstd::prelude::*;

use crate::msg::{SignedEvent, EventData, EventFilter, FilterData, TagQuery, TagQueryData};

verus! {

/// One event tag satisfies one tag constraint: the tag has a name and at
/// least one value, its name is the constraint's name, and its first value
/// is one of the constraint's values.
pub open spec fn tag_entry_matches(q: TagQueryData, t: Seq<Seq<char>>) -> bool {
    t.len() >= 2 && t[0] == q.name && q.values.contains(t[1])
}

/// Some tag of the event satisfies the tag constraint.
pub open spec fn tag_query_matches(q: TagQueryData, tags: Seq<Seq<Seq<char>>>) -> bool {
    exists|i: int| 0 <= i < tags.len() && tag_entry_matches(q, #[trigger] tags[i])
}

/// An event matches a filter when every present constraint holds of it:
/// a conjunction over ids, authors, kinds, time bounds and tag constraints.
/// The `limit` field bounds stored-event replies and takes no part here.
pub open spec fn filter_matches(f: FilterData, e: EventData) -> bool {
    &&& (f.ids matches Some(ids) ==> ids.contains(e.id))
    &&& (f.authors matches Some(authors) ==> authors.contains(e.pubkey))
    &&& (f.kinds matches Some(kinds) ==> kinds.contains(e.kind))
    &&& (f.since matches Some(since) ==> e.created_at >= since)
    &&& (f.until matches Some(until) ==> e.created_at <= until)
    &&& (forall|i: int| 0 <= i < f.tags.len() ==> tag_query_matches(#[trigger] f.tags[i], e.tags))
}

/// An event matches a filter set when it matches at least one of its
/// filters: a disjunction across the set.
pub open spec fn any_filter_matches(fs: Seq<FilterData>, e: EventData) -> bool {
    exists|i: int| 0 <= i < fs.len() && filter_matches(#[trigger] fs[i], e)
}

/// Whether `v` holds a string equal to `s`.
fn contains_string(v: &Vec<String>, s: &String) -> (r: bool)
    ensures
        r == v.deep_view().contains(s@),
{
    let mut i: usize = 0;
    while i < v.len()
        invariant
            i <= v.len(),
            forall|k: int| 0 <= k < i ==> v.deep_view()[k] != s@,
        decreases v.len() - i,
    {
        if v[i].eq(s) {
            assert(v.deep_view()[i as int] == s@);
            return true;
        }
        i = i + 1;
    }
    assert(!v.deep_view().contains(s@));
    false
}

/// Whether `v` holds the kind number `x`.
fn contains_kind(v: &Vec<u16>, x: u16) -> (r: bool)
    ensures
        r == v@.contains(x),
{
    let mut i: usize = 0;
    while i < v.len()
        invariant
            i <= v.len(),
            forall|k: int| 0 <= k < i ==> v@[k] != x,
        decreases v.len() - i,
    {
        if v[i] == x {
            return true;
        }
        i = i + 1;
    }
    false
}

/// Whether one event tag satisfies the tag constraint `q`.
fn tag_entry_satisfies(q: &TagQuery, t: &Vec<String>) -> (r: bool)
    ensures
        r == tag_entry_matches(q@, t.deep_view()),
{
    if t.len() < 2 {
        return false;
    }
    if !t[0].eq(&q.name) {
        assert(t.deep_view()[0] != q@.name);
        return false;
    }
    assert(t.deep_view()[0] == q@.name);
    contains_string(&q.values, &t[1])
}

/// Whether some tag of `tags` satisfies the tag constraint `q`.
fn some_tag_satisfies(q: &TagQuery, tags: &Vec<Vec<String>>) -> (r: bool)
    ensures
        r == tag_query_matches(q@, tags.deep_view()),
{
    let mut i: usize = 0;
    while i < tags.len()
        invariant
            i <= tags.len(),
            forall|k: int| 0 <= k < i ==> !tag_entry_matches(q@, #[trigger] tags.deep_view()[k]),
        decreases tags.len() - i,
    {
        if tag_entry_satisfies(q, &tags[i]) {
            assert(tag_entry_matches(q@, tags.deep_view()[i as int]));
            return true;
        }
        i = i + 1;
    }
    false
}

/// Whether `e` matches the filter `f`; returns exactly [`filter_matches`]
/// of the two views.
pub fn event_matches_filter(e: &SignedEvent, f: &EventFilter) -> (r: bool)
    ensures
        r == filter_matches(f@, e@),
{
    match &f.ids {
        Some(ids) => {
            if !contains_string(ids, &e.id) {
                return false;
            }
        },
        None => {},
    }
    match &f.authors {
        Some(authors) => {
            if !contains_string(authors, &e.pubkey) {
                return false;
            }
        },
        None => {},
    }
    match &f.kinds {
        Some(kinds) => {
            assert(kinds.deep_view() =~= kinds@);
            if !contains_kind(kinds, e.kind) {
                return false;
            }
        },
        None => {},
    }
    match f.since {
        Some(since) => {
            if e.created_at < since {
                return false;
            }
        },
        None => {},
    }
    match f.until {
        Some(until) => {
            if e.created_at > until {
                return false;
            }
        },
        None => {},
    }
    let mut i: usize = 0;
    while i < f.tags.len()
        invariant
            i <= f.tags.len(),
            forall|k: int| 0 <= k < i ==> tag_query_matches(#[trigger] f@.tags[k], e@.tags),
            f.ids matches Some(ids) ==> f@.ids matches Some(v) && v.contains(e@.id),
            f.authors matches Some(authors) ==> f@.authors matches Some(v) && v.contains(
                e@.pubkey,
            ),
            f.kinds matches Some(kinds) ==> f@.kinds matches Some(v) && v.contains(e@.kind),
            f.since matches Some(since) ==> e@.created_at >= since,
            f.until matches Some(until) ==> e@.created_at <= until,
        decreases f.tags.len() - i,
    {
        if !some_tag_satisfies(&f.tags[i], &e.tags) {
            assert(!tag_query_matches(f@.tags[i as int], e@.tags));
            return false;
        }
        assert(tag_query_matches(f@.tags[i as int], e@.tags));
        i = i + 1;
    }
    true
}

/// Whether `e` matches at least one filter of `fs`; returns exactly
/// [`any_filter_matches`] of the views.
pub fn event_matches_any(e: &SignedEvent, fs: &Vec<EventFilter>) -> (r: bool)
    ensures
        r == any_filter_matches(fs.deep_view(), e@),
{
    let mut i: usize = 0;
    while i < fs.len()
        invariant
            i <= fs.len(),
            forall|k: int| 0 <= k < i ==> !filter_matches(#[trigger] fs.deep_view()[k], e@),
        decreases fs.len() - i,
    {
        if event_matches_filter(e, &fs[i]) {
            assert(filter_matches(fs.deep_view()[i as int], e@));
            return true;
        }
        i = i + 1;
    }
    false
}

/// An event matches a filter set exactly when the set holds, anywhere in
/// its order, a filter that the event matches.
pub proof fn lemma_any_filter_matches_is_membership(fs: Seq<FilterData>, e: EventData)
    ensures
        any_filter_matches(fs, e) <==> exists|f: FilterData|
            #[trigger] fs.contains(f) && filter_matches(f, e),
{
    if any_filter_matches(fs, e) {
        let i = choose|i: int| 0 <= i < fs.len() && filter_matches(#[trigger] fs[i], e);
        assert(fs.contains(fs[i]) && filter_matches(fs[i], e));
    }
    if exists|f: FilterData| #[trigger] fs.contains(f) && filter_matches(f, e) {
        let f = choose|f: FilterData| #[trigger] fs.contains(f) && filter_matches(f, e);
        let i = choose|i: int| 0 <= i < fs.len() && fs[i] == f;
        assert(0 <= i < fs.len() && filter_matches(fs[i], e));
    }
}

/// Matching is invariant to the order of the filter set: two filter sets
/// that hold the same filters, however arranged, match the same events.
pub proof fn lemma_matching_order_invariant(fs1: Seq<FilterData>, fs2: Seq<FilterData>, e: EventData)
    requires
        fs1.to_multiset() == fs2.to_multiset(),
    ensures
        any_filter_matches(fs1, e) == any_filter_matches(fs2, e),
{
    assert forall|f: FilterData| fs1.contains(f) <==> #[trigger] fs2.contains(f) by {
        fs1.to_multiset_ensures();
        fs2.to_multiset_ensures();
        assert(fs1.contains(f) <==> fs1.to_multiset().count(f) > 0);
        assert(fs2.contains(f) <==> fs2.to_multiset().count(f) > 0);
    }
    lemma_any_filter_matches_is_membership(fs1, e);
    lemma_any_filter_matches_is_membership(fs2, e);
    if any_filter_matches(fs1, e) {
        let f = choose|f: FilterData| #[trigger] fs1.contains(f) && filter_matches(f, e);
        assert(fs2.contains(f) && filter_matches(f, e));
    }
    if any_filter_matches(fs2, e) {
        let f = choose|f: FilterData| #[trigger] fs2.contains(f) && filter_matches(f, e);
        assert(fs1.contains(f) && filter_matches(f, e));
    }
}

} // verus!
