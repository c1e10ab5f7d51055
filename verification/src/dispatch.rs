//! The message dispatcher: a pure mapping from the connection's current
//! subscriptions and one decoded client message to the new subscriptions
//! and the ordered relay responses, including fan-out of a validated event
//! to every matching subscription of the connection.

use vstd::prelude::*;

use crate::codec::{sig_valid, verify_event};
use crate::msg::{ClientMessage, ClientMessageData, EventData, FilterData, RelayMessage,
    RelayMessageData};
use crate::filter::any_filter_matches;
use crate::subs::{distinct_ids, fanout_ids, has_sub, lemma_fanout_membership,
    lemma_remove_distinct, lemma_upsert_distinct, remove_sub, upsert_subs, SubscriptionData,
    SubscriptionSet};

verus! {

/// The reason string an acknowledgement carries when an event's signature
/// or id does not check out.
pub open spec fn invalid_event_reason() -> Seq<char> {
    "invalid: bad signature or id"@
}

/// The notice sent for a recognized message kind this relay does not serve.
pub open spec fn unsupported_notice() -> Seq<char> {
    "unsupported message kind"@
}

/// The fan-out frames of one validated event: one `EVENT` frame per
/// matching subscription, in subscription order.
pub open spec fn fanout_frames(subs: Seq<SubscriptionData>, e: EventData) -> Seq<RelayMessageData> {
    fanout_ids(subs, e).map_values(
        |sid: Seq<char>| RelayMessageData::Event { subscription_id: sid, event: e },
    )
}

/// What dispatch does, as a pure function: given the connection's
/// subscriptions, one message, and the event-validity outcome, it yields
/// the new subscriptions and the ordered responses.
///
/// A valid event is acknowledged `OK(id, true)` and fanned out to every
/// matching subscription; an invalid one is acknowledged `OK(id, false)`
/// with a reason and goes no further. A request replaces or installs the
/// subscription and answers with `EOSE`. A close removes the subscription
/// and confirms with `CLOSED` whether or not one was held. Anything else
/// draws a notice.
pub open spec fn dispatch_spec(
    subs: Seq<SubscriptionData>,
    m: ClientMessageData,
    valid: bool,
) -> (Seq<SubscriptionData>, Seq<RelayMessageData>) {
    match m {
        ClientMessageData::Event(e) => if valid {
            (
                subs,
                seq![
                    RelayMessageData::OkMsg {
                        event_id: e.id,
                        accepted: true,
                        message: Seq::empty(),
                    },
                ] + fanout_frames(subs, e),
            )
        } else {
            (
                subs,
                seq![
                    RelayMessageData::OkMsg {
                        event_id: e.id,
                        accepted: false,
                        message: invalid_event_reason(),
                    },
                ],
            )
        },
        ClientMessageData::Req { subscription_id, filters } => (
            upsert_subs(subs, subscription_id, filters),
            seq![RelayMessageData::Eose { subscription_id }],
        ),
        ClientMessageData::Close { subscription_id } => (
            remove_sub(subs, subscription_id),
            seq![RelayMessageData::Closed { subscription_id, message: Seq::empty() }],
        ),
        ClientMessageData::Unsupported => (
            subs,
            seq![RelayMessageData::Notice { message: unsupported_notice() }],
        ),
    }
}

/// The validity outcome dispatch uses: the signature check for an event,
/// and vacuously true for every other message kind.
pub open spec fn validity_of(m: ClientMessageData) -> bool {
    match m {
        ClientMessageData::Event(e) => sig_valid(e),
        _ => true,
    }
}

/// Dispatches one message under a given validity outcome: exactly
/// [`dispatch_spec`] of the old state, the message and the outcome.
pub fn dispatch_validated(subs: &mut SubscriptionSet, m: ClientMessage, valid: bool) -> (out: Vec<
    RelayMessage,
>)
    requires
        old(subs).wf(),
    ensures
        final(subs).wf(),
        final(subs)@ == dispatch_spec(old(subs)@, m@, valid).0,
        out.deep_view() == dispatch_spec(old(subs)@, m@, valid).1,
{
    let ghost s0 = subs@;
    let ghost mv = m@;
    let mut out: Vec<RelayMessage> = Vec::new();
    match m {
        ClientMessage::Event(e) => {
            if valid {
                out.push(
                    RelayMessage::OkMsg {
                        event_id: e.id.clone(),
                        accepted: true,
                        message: String::new(),
                    },
                );
                let ids = subs.matching_ids(&e);
                let ghost frames = fanout_frames(s0, e@);
                let mut i: usize = 0;
                while i < ids.len()
                    invariant
                        subs@ == s0,
                        i <= ids.len(),
                        out@.len() == i + 1,
                        ids.deep_view() == fanout_ids(s0, e@),
                        frames == fanout_frames(s0, e@),
                        frames.len() == ids@.len(),
                        out@[0]@ == (RelayMessageData::OkMsg {
                            event_id: e@.id,
                            accepted: true,
                            message: Seq::empty(),
                        }),
                        forall|k: int| 1 <= k <= i ==> #[trigger] out@[k]@ == frames[k - 1],
                    decreases ids.len() - i,
                {
                    out.push(
                        RelayMessage::Event { subscription_id: ids[i].clone(), event: e.clone() },
                    );
                    proof {
                        assert(ids.deep_view()[i as int] == ids@[i as int]@);
                        assert(frames[i as int] == RelayMessageData::Event {
                            subscription_id: ids.deep_view()[i as int],
                            event: e@,
                        });
                        assert(out@[i as int + 1]@ == frames[i as int]);
                    }
                    i = i + 1;
                }
                proof {
                    assert(forall|k: int|
                        0 <= k < out@.len() ==> #[trigger] out.deep_view()[k] == out@[k]@);
                    assert(out.deep_view() =~~= seq![
                        RelayMessageData::OkMsg {
                            event_id: e@.id,
                            accepted: true,
                            message: Seq::empty(),
                        },
                    ] + frames);
                    assert(out.deep_view() =~~= dispatch_spec(s0, mv, valid).1);
                }
            } else {
                out.push(
                    RelayMessage::OkMsg {
                        event_id: e.id.clone(),
                        accepted: false,
                        message: "invalid: bad signature or id".to_owned(),
                    },
                );
                assert(out.deep_view() =~~= dispatch_spec(s0, mv, valid).1);
            }
        },
        ClientMessage::Req { subscription_id, filters } => {
            let sid = subscription_id.clone();
            subs.subscribe(subscription_id, filters);
            out.push(RelayMessage::Eose { subscription_id: sid });
            assert(out.deep_view() =~~= dispatch_spec(s0, mv, valid).1);
        },
        ClientMessage::Close { subscription_id } => {
            subs.unsubscribe(&subscription_id);
            out.push(RelayMessage::Closed { subscription_id, message: String::new() });
            assert(out.deep_view() =~~= dispatch_spec(s0, mv, valid).1);
        },
        ClientMessage::Unsupported => {
            out.push(RelayMessage::Notice { message: "unsupported message kind".to_owned() });
            assert(out.deep_view() =~~= dispatch_spec(s0, mv, valid).1);
        },
    }
    out
}

/// Dispatches one message, checking the event signature through the codec
/// boundary: exactly [`dispatch_spec`] under the outcome [`validity_of`].
pub fn dispatch(subs: &mut SubscriptionSet, m: ClientMessage) -> (out: Vec<RelayMessage>)
    requires
        old(subs).wf(),
    ensures
        final(subs).wf(),
        final(subs)@ == dispatch_spec(old(subs)@, m@, validity_of(m@)).0,
        out.deep_view() == dispatch_spec(old(subs)@, m@, validity_of(m@)).1,
{
    let valid = match &m {
        ClientMessage::Event(e) => verify_event(e),
        ClientMessage::Req { .. } => true,
        ClientMessage::Close { .. } => true,
        ClientMessage::Unsupported => true,
    };
    dispatch_validated(subs, m, valid)
}

/// A valid event is acknowledged: dispatching it yields, first, an
/// `OK(id, true)` result naming the event's id, and leaves the
/// subscriptions unchanged.
pub proof fn lemma_valid_event_acknowledged(subs: Seq<SubscriptionData>, e: EventData)
    ensures
        dispatch_spec(subs, ClientMessageData::Event(e), true).0 == subs,
        dispatch_spec(subs, ClientMessageData::Event(e), true).1.len() >= 1,
        dispatch_spec(subs, ClientMessageData::Event(e), true).1[0] == (RelayMessageData::OkMsg {
            event_id: e.id,
            accepted: true,
            message: Seq::empty(),
        }),
{
}

/// A tampered event is rejected: dispatching it under a failed validity
/// outcome yields exactly one `OK(id, false)` result with a non-empty
/// reason, no fan-out frame at all, and unchanged subscriptions.
pub proof fn lemma_invalid_event_rejected(subs: Seq<SubscriptionData>, e: EventData)
    ensures
        dispatch_spec(subs, ClientMessageData::Event(e), false).0 == subs,
        dispatch_spec(subs, ClientMessageData::Event(e), false).1 =~= seq![
            RelayMessageData::OkMsg {
                event_id: e.id,
                accepted: false,
                message: invalid_event_reason(),
            },
        ],
        invalid_event_reason().len() > 0,
        forall|k: int|
            0 <= k < dispatch_spec(subs, ClientMessageData::Event(e), false).1.len()
                ==> !(#[trigger] dispatch_spec(subs, ClientMessageData::Event(e), false).1[k]
                matches RelayMessageData::Event { .. }),
{
    reveal_strlit("invalid: bad signature or id");
}

/// Closing a subscription right after requesting it is final: the
/// subscription is gone, and a later valid event, whatever it matches,
/// is fanned out to no frame naming that subscription id.
pub proof fn lemma_close_stops_fanout(
    subs: Seq<SubscriptionData>,
    sid: Seq<char>,
    fs: Seq<FilterData>,
    e: EventData,
)
    requires
        distinct_ids(subs),
    ensures
        ({
            let s1 = dispatch_spec(
                subs,
                ClientMessageData::Req { subscription_id: sid, filters: fs },
                true,
            ).0;
            let s2 = dispatch_spec(s1, ClientMessageData::Close { subscription_id: sid }, true).0;
            let out = dispatch_spec(s2, ClientMessageData::Event(e), true).1;
            &&& !has_sub(s2, sid)
            &&& forall|k: int|
                0 <= k < out.len() ==> !(#[trigger] out[k] matches RelayMessageData::Event {
                    subscription_id,
                    ..
                } && subscription_id == sid)
        }),
{
    let s1 = upsert_subs(subs, sid, fs);
    let s2 = remove_sub(s1, sid);
    lemma_upsert_distinct(subs, sid, fs);
    lemma_remove_distinct(s1, sid);
    lemma_fanout_membership(s2, e, sid);
    let out = dispatch_spec(s2, ClientMessageData::Event(e), true).1;
    let frames = fanout_frames(s2, e);
    assert forall|k: int|
        0 <= k < out.len() implies !(#[trigger] out[k] matches RelayMessageData::Event {
        subscription_id,
        ..
    } && subscription_id == sid) by {
        if k >= 1 {
            assert(out[k] == frames[k - 1]);
            assert(frames[k - 1] == (RelayMessageData::Event {
                subscription_id: fanout_ids(s2, e)[k - 1],
                event: e,
            }));
            if fanout_ids(s2, e)[k - 1] == sid {
                assert(fanout_ids(s2, e).contains(sid));
            }
        }
    }
}

/// A repeated request under one subscription id replaces the filter set
/// outright: after the second request, the event is fanned out to that id
/// exactly when it matches the second filter set — the first no longer
/// counts.
pub proof fn lemma_req_replaces_filters(
    subs: Seq<SubscriptionData>,
    sid: Seq<char>,
    fs1: Seq<FilterData>,
    fs2: Seq<FilterData>,
    e: EventData,
)
    requires
        distinct_ids(subs),
    ensures
        ({
            let s1 = dispatch_spec(
                subs,
                ClientMessageData::Req { subscription_id: sid, filters: fs1 },
                true,
            ).0;
            let s2 = dispatch_spec(
                s1,
                ClientMessageData::Req { subscription_id: sid, filters: fs2 },
                true,
            ).0;
            fanout_ids(s2, e).contains(sid) <==> any_filter_matches(fs2, e)
        }),
{
    let s1 = upsert_subs(subs, sid, fs1);
    let s2 = upsert_subs(s1, sid, fs2);
    lemma_upsert_distinct(subs, sid, fs1);
    lemma_upsert_distinct(s1, sid, fs2);
    lemma_fanout_membership(s2, e, sid);
    let i = choose|i: int| 0 <= i < s1.len() && #[trigger] s1[i].id == sid;
    assert(s2 == s1.update(i, SubscriptionData { id: sid, filters: fs2 }));
    assert(s2[i].id == sid && s2[i].filters == fs2);
    if fanout_ids(s2, e).contains(sid) {
        let j = choose|j: int|
            0 <= j < s2.len() && #[trigger] s2[j].id == sid && any_filter_matches(
                s2[j].filters,
                e,
            );
        assert(j == i);
    }
    if any_filter_matches(fs2, e) {
        assert(s2[i].id == sid && any_filter_matches(s2[i].filters, e));
    }
}

} // verus!
