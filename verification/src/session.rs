//! The per-frame step of a connection session: decode one text frame,
//! dispatch it against the connection's subscriptions, and encode the
//! ordered responses. A frame that fails to decode draws one notice and
//! leaves the state untouched, so one malformed frame never ends a
//! connection.

use vstd::prelude::*;

use crate::codec::{decode_frame, encodable, encode_frame, frame_ok, relay_wire, decoded};
use crate::dispatch::{dispatch, dispatch_spec, validity_of};
use crate::msg::{is_hex64, ClientMessageData, RelayMessage, RelayMessageData};
use crate::subs::{SubscriptionData, SubscriptionSet};

verus! {

/// The notice sent back for a text frame that does not decode.
pub open spec fn malformed_notice() -> Seq<char> {
    "could not parse message"@
}

/// What one received text frame does to the session, as a pure function:
/// a decodable frame is dispatched under its validity outcome; a malformed
/// one leaves the subscriptions alone and draws exactly one notice.
pub open spec fn session_spec(subs: Seq<SubscriptionData>, text: Seq<char>) -> (
    Seq<SubscriptionData>,
    Seq<RelayMessageData>,
) {
    match decoded(text) {
        Some(m) => dispatch_spec(subs, m, validity_of(m)),
        None => (subs, seq![RelayMessageData::Notice { message: malformed_notice() }]),
    }
}

/// Every response the dispatcher produces from a decoded message is sure
/// to serialize.
pub proof fn lemma_dispatch_frames_ok(subs: Seq<SubscriptionData>, m: ClientMessageData, valid: bool)
    requires
        m matches ClientMessageData::Event(e) ==> encodable(e) && is_hex64(e.id),
    ensures
        forall|k: int|
            0 <= k < dispatch_spec(subs, m, valid).1.len() ==> frame_ok(
                #[trigger] dispatch_spec(subs, m, valid).1[k],
            ),
{
    let out = dispatch_spec(subs, m, valid).1;
    match m {
        ClientMessageData::Event(e) => {
            if valid {
                let frames = crate::dispatch::fanout_frames(subs, e);
                assert forall|k: int| 0 <= k < out.len() implies frame_ok(#[trigger] out[k]) by {
                    if k >= 1 {
                        assert(out[k] == frames[k - 1]);
                        assert(frames[k - 1] matches RelayMessageData::Event { event, .. }
                            && event == e);
                    }
                }
            }
        },
        _ => {},
    }
}

/// Handles one received text frame: decodes it, dispatches it, and
/// returns the encoded response frames in order — exactly the wire forms
/// of [`session_spec`]'s responses, with the subscriptions updated as that
/// spec says.
pub fn handle_frame(subs: &mut SubscriptionSet, text: &str) -> (out: Vec<String>)
    requires
        old(subs).wf(),
    ensures
        final(subs).wf(),
        final(subs)@ == session_spec(old(subs)@, text@).0,
        out.deep_view() == session_spec(old(subs)@, text@).1.map_values(
            |m: RelayMessageData| relay_wire(m),
        ),
{
    let ghost s0 = subs@;
    match decode_frame(text) {
        Some(m) => {
            let ghost mv = m.deep_view();
            proof {
                lemma_dispatch_frames_ok(s0, mv, validity_of(mv));
            }
            let msgs = dispatch(subs, m);
            let ghost outv = dispatch_spec(s0, mv, validity_of(mv)).1;
            let mut out: Vec<String> = Vec::new();
            let mut i: usize = 0;
            while i < msgs.len()
                invariant
                    i <= msgs.len(),
                    out@.len() == i,
                    msgs.deep_view() == outv,
                    msgs@.len() == outv.len(),
                    forall|k: int| 0 <= k < outv.len() ==> frame_ok(#[trigger] outv[k]),
                    forall|k: int| 0 <= k < i ==> #[trigger] out@[k]@ == relay_wire(outv[k]),
                decreases msgs.len() - i,
            {
                proof {
                    assert(msgs.deep_view()[i as int] == msgs@[i as int]@);
                }
                match encode_frame(&msgs[i]) {
                    Some(s) => {
                        out.push(s);
                    },
                    None => {
                        proof {
                            assert(false);
                        }
                    },
                }
                i = i + 1;
            }
            proof {
                assert(out.deep_view() =~~= outv.map_values(|m: RelayMessageData| relay_wire(m)));
            }
            out
        },
        None => {
            let notice = RelayMessage::Notice { message: "could not parse message".to_owned() };
            let mut out: Vec<String> = Vec::new();
            match encode_frame(&notice) {
                Some(s) => {
                    out.push(s);
                },
                None => {
                    proof {
                        assert(false);
                    }
                },
            }
            proof {
                assert(out.deep_view() =~~= session_spec(s0, text@).1.map_values(
                    |m: RelayMessageData| relay_wire(m),
                ));
            }
            out
        },
    }
}

/// A malformed frame draws exactly one notice and leaves every
/// subscription in place: the session survives it unchanged.
pub proof fn lemma_malformed_frame_is_harmless(subs: Seq<SubscriptionData>, text: Seq<char>)
    requires
        decoded(text) is None,
    ensures
        session_spec(subs, text).0 == subs,
        session_spec(subs, text).1.len() == 1,
        session_spec(subs, text).1[0] matches RelayMessageData::Notice { .. },
{
}

} // verus!
