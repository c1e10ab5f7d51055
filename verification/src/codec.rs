//! The codec boundary: the wire-format parser, serializer and signature
//! check live in the `nostr` crate and are reached through a small set of
//! trusted wrappers. What they return is named by uninterpreted spec
//! functions; everything the relay does with those results is verified.

use vstd::prelude::*;

use nostr::message::ClientMessage as WireClientMessage;

use crate::msg::{
    is_hex64, ClientMessage, ClientMessageData, SignedEvent, EventData, EventFilter, RelayMessage,
    RelayMessageData, TagQuery,
};

verus! {

#[verifier::external_type_specification]
#[verifier::external_body]
/// Declares the wire event type of the `nostr` crate so that conversion
/// wrappers may mention it; the library never reads inside a value of it.
pub struct ExNostrEvent(nostr::event::Event);

#[verifier::external_type_specification]
#[verifier::external_body]
/// Declares the wire filter type of the `nostr` crate so that conversion
/// wrappers may mention it; the library never reads inside a value of it.
pub struct ExNostrFilter(nostr::filter::Filter);

/// What one text frame decodes to: `None` for malformed input, otherwise
/// the typed client message. A function of the text alone.
pub uninterp spec fn decoded(s: Seq<char>) -> Option<ClientMessageData>;

/// Whether an event's id-hash binding and signature check out. A function
/// of the event's fields alone.
pub uninterp spec fn sig_valid(e: EventData) -> bool;

/// Whether an event's plain fields rebuild into a wire event (hex fields
/// parse, tags are well formed). A function of the fields alone; every
/// decoded event satisfies it.
pub uninterp spec fn encodable(e: EventData) -> bool;

/// The wire frame that a relay message serializes to. A function of the
/// message alone.
pub uninterp spec fn relay_wire(m: RelayMessageData) -> Seq<char>;

/// Conversion half of the decoder: copies one parsed wire event into plain
/// data. Relies on `EventId::to_hex`, `PublicKey::to_hex`,
/// `Signature::to_hex`, `Timestamp::as_secs`, `Kind::as_u16` and
/// `Tag::as_slice` of the `nostr` crate.
#[verifier::external_body]
fn event_plain(e: &nostr::event::Event) -> SignedEvent {
    SignedEvent {
        id: e.id.to_hex(),
        pubkey: e.pubkey.to_hex(),
        created_at: e.created_at.as_secs(),
        kind: e.kind.as_u16(),
        tags: e.tags.iter().map(|t| t.as_slice().to_vec()).collect(),
        content: e.content.clone(),
        sig: e.sig.to_hex(),
    }
}

/// Conversion half of the decoder: copies the tag constraints of one
/// parsed wire filter into plain data. Relies on the `generic_tags` field
/// of `nostr::filter::Filter` and `SingleLetterTag`'s display form.
#[verifier::external_body]
fn tag_queries(f: &nostr::filter::Filter) -> Vec<TagQuery> {
    f.generic_tags.iter().map(
        |(k, v)| TagQuery { name: k.to_string(), values: v.iter().cloned().collect() },
    ).collect()
}

/// Conversion half of the decoder, continued: the non-tag constraints of
/// one parsed wire filter.
#[verifier::external_body]
fn filter_plain(f: &nostr::filter::Filter) -> EventFilter {
    EventFilter {
        ids: f.ids.as_ref().map(|s| s.iter().map(|i| i.to_hex()).collect()),
        authors: f.authors.as_ref().map(|s| s.iter().map(|p| p.to_hex()).collect()),
        kinds: f.kinds.as_ref().map(|s| s.iter().map(|k| k.as_u16()).collect()),
        since: f.since.map(|t| t.as_secs()),
        until: f.until.map(|t| t.as_secs()),
        limit: f.limit.map(|l| l as u64),
        tags: tag_queries(f),
    }
}

/// Conversion half of the encoder and the signature check: rebuilds a wire
/// event from plain fields, failing exactly when a field does not parse.
/// Relies on `EventId::from_hex`, `PublicKey::from_hex`,
/// `Signature::from_hex`, `Tag::parse` and `Event::new` of the `nostr`
/// crate.
#[verifier::external_body]
fn event_wire(e: &SignedEvent) -> Option<nostr::event::Event> {
    let id = nostr::event::EventId::from_hex(&e.id).ok()?;
    let pk = nostr::key::PublicKey::from_hex(&e.pubkey).ok()?;
    let sig = nostr::event::Signature::from_hex(&e.sig).ok()?;
    let mut tags: Vec<nostr::event::Tag> = Vec::new();
    for t in e.tags.iter() {
        tags.push(nostr::event::Tag::parse(t.clone()).ok()?);
    }
    let ts = nostr::types::Timestamp::from_secs(e.created_at);
    let kind = nostr::event::Kind::from_u16(e.kind);
    Some(nostr::event::Event::new(id, pk, ts, kind, tags, e.content.clone(), sig))
}

/// Relies on `nostr::message::ClientMessage::from_json`: parses one Nostr
/// client frame; the outcome is a function of the text alone. A decoded
/// event's id is the fixed-width hexadecimal form that the crate's own
/// encoder writes, and its fields rebuild into a wire event.
#[verifier::external_body]
pub(crate) fn decode_frame(text: &str) -> (r: Option<ClientMessage>)
    ensures
        match r {
            Some(m) => decoded(text@) == Some(m.deep_view()),
            None => decoded(text@) is None,
        },
        r matches Some(ClientMessage::Event(e)) ==> encodable(e@) && is_hex64(e@.id),
{
    match WireClientMessage::from_json(text) {
        Ok(WireClientMessage::Event(e)) => Some(ClientMessage::Event(event_plain(e.as_ref()))),
        Ok(WireClientMessage::Req { subscription_id, filters }) => Some(ClientMessage::Req {
            subscription_id: subscription_id.to_string(),
            filters: filters.iter().map(|f| filter_plain(f.as_ref())).collect(),
        }),
        Ok(WireClientMessage::Close(s)) => Some(ClientMessage::Close {
            subscription_id: s.to_string(),
        }),
        Ok(_) => Some(ClientMessage::Unsupported),
        Err(_) => None,
    }
}

/// Relies on `nostr::event::Event::verify`: checks the id-hash binding and
/// the Schnorr signature; the outcome is a function of the event's fields
/// alone. Fields that do not rebuild into a wire event are invalid.
#[verifier::external_body]
pub(crate) fn verify_event(e: &SignedEvent) -> (r: bool)
    ensures
        r == sig_valid(e@),
{
    match event_wire(e) {
        Some(w) => w.verify().is_ok(),
        None => false,
    }
}

/// Relies on `nostr::message::RelayMessage::try_as_json` for the
/// `["OK", id, status, message]` frame, and on `EventId::from_hex`, which
/// accepts exactly the 64-digit hexadecimal ids.
#[verifier::external_body]
fn encode_ok_frame(event_id: &str, accepted: bool, message: &str) -> (r: Option<String>)
    ensures
        is_hex64(event_id@) ==> r is Some,
        r matches Some(s) ==> s@ == relay_wire(
            RelayMessageData::OkMsg { event_id: event_id@, accepted, message: message@ },
        ),
{
    let id = match nostr::event::EventId::from_hex(event_id) {
        Ok(i) => i,
        Err(_) => {
            return None;
        },
    };
    nostr::message::RelayMessage::ok(id, accepted, message).try_as_json().ok()
}

/// Relies on `nostr::message::RelayMessage::try_as_json` for the
/// `["EVENT", sid, event]` frame; an encodable event rebuilds and
/// serializes.
#[verifier::external_body]
fn encode_event_frame(subscription_id: &str, event: &SignedEvent) -> (r: Option<String>)
    ensures
        encodable(event@) ==> r is Some,
        r matches Some(s) ==> s@ == relay_wire(
            RelayMessageData::Event { subscription_id: subscription_id@, event: event@ },
        ),
{
    let w = event_wire(event)?;
    let sid = nostr::message::SubscriptionId::new(subscription_id);
    nostr::message::RelayMessage::event(sid, w).try_as_json().ok()
}

/// Relies on `nostr::message::RelayMessage::try_as_json` for the
/// `["EOSE", sid]` frame, which serializes for every subscription id.
#[verifier::external_body]
fn encode_eose_frame(subscription_id: &str) -> (r: Option<String>)
    ensures
        r is Some,
        r matches Some(s) ==> s@ == relay_wire(
            RelayMessageData::Eose { subscription_id: subscription_id@ },
        ),
{
    let sid = nostr::message::SubscriptionId::new(subscription_id);
    nostr::message::RelayMessage::eose(sid).try_as_json().ok()
}

/// Relies on `nostr::message::RelayMessage::try_as_json` for the
/// `["CLOSED", sid, message]` frame, which serializes for every input.
#[verifier::external_body]
fn encode_closed_frame(subscription_id: &str, message: &str) -> (r: Option<String>)
    ensures
        r is Some,
        r matches Some(s) ==> s@ == relay_wire(
            RelayMessageData::Closed { subscription_id: subscription_id@, message: message@ },
        ),
{
    let sid = nostr::message::SubscriptionId::new(subscription_id);
    nostr::message::RelayMessage::closed(sid, message).try_as_json().ok()
}

/// Relies on `nostr::message::RelayMessage::try_as_json` for the
/// `["NOTICE", message]` frame, which serializes for every message.
#[verifier::external_body]
fn encode_notice_frame(message: &str) -> (r: Option<String>)
    ensures
        r is Some,
        r matches Some(s) ==> s@ == relay_wire(RelayMessageData::Notice { message: message@ }),
{
    nostr::message::RelayMessage::notice(message).try_as_json().ok()
}

/// Whether a relay message is sure to serialize: an acknowledgement must
/// carry a hexadecimal event id, a fan-out frame an encodable event. Every
/// message the dispatcher produces from decoded input satisfies this.
pub open spec fn frame_ok(m: RelayMessageData) -> bool {
    match m {
        RelayMessageData::OkMsg { event_id, .. } => is_hex64(event_id),
        RelayMessageData::Event { event, .. } => encodable(event),
        RelayMessageData::Eose { .. } => true,
        RelayMessageData::Closed { .. } => true,
        RelayMessageData::Notice { .. } => true,
    }
}

/// Encodes one relay message as its wire frame: exactly [`relay_wire`] of
/// its view, and sure to succeed on every message with [`frame_ok`].
pub fn encode_frame(m: &RelayMessage) -> (r: Option<String>)
    ensures
        frame_ok(m@) ==> r is Some,
        r matches Some(s) ==> s@ == relay_wire(m@),
{
    match m {
        RelayMessage::OkMsg { event_id, accepted, message } => encode_ok_frame(
            event_id.as_str(),
            *accepted,
            message.as_str(),
        ),
        RelayMessage::Event { subscription_id, event } => encode_event_frame(
            subscription_id.as_str(),
            event,
        ),
        RelayMessage::Eose { subscription_id } => encode_eose_frame(subscription_id.as_str()),
        RelayMessage::Closed { subscription_id, message } => encode_closed_frame(
            subscription_id.as_str(),
            message.as_str(),
        ),
        RelayMessage::Notice { message } => encode_notice_frame(message.as_str()),
    }
}

} // verus!
