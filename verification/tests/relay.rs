//! End-to-end and property tests for the relay core, run against the real
//! codec: events are produced and signed with the `nostr` crate, frames
//! are compared against its exact wire forms.

use nostr::event::FinalizeEvent;

use sndstr::dispatch::dispatch;
use sndstr::msg::{ClientMessage, EventFilter, RelayMessage, SignedEvent, TagQuery};
use sndstr::session::handle_frame;
use sndstr::subs::SubscriptionSet;

fn plain(e: &nostr::event::Event) -> SignedEvent {
    SignedEvent {
        id: e.id.to_hex(),
        pubkey: e.pubkey.to_hex(),
        created_at: e.created_at.as_secs(),
        kind: e.kind.as_u16(),
        tags: e.tags.iter().map(|t| t.as_slice().to_vec()).collect(),
        content: e.content.clone(),
        sig: e.sig.to_hex(),
    }
}

fn signed_event(kind: u16, content: &str) -> nostr::event::Event {
    let keys = nostr::key::Keys::generate();
    nostr::event::EventBuilder::new(nostr::event::Kind::from_u16(kind), content)
        .finalize(&keys)
        .unwrap()
}

fn signed_event_with_tag(kind: u16, content: &str, tag: &[&str]) -> nostr::event::Event {
    let keys = nostr::key::Keys::generate();
    let tag = nostr::event::Tag::parse(tag.iter().map(|s| s.to_string())).unwrap();
    nostr::event::EventBuilder::new(nostr::event::Kind::from_u16(kind), content)
        .tag(tag)
        .finalize(&keys)
        .unwrap()
}

fn kinds_filter(ks: &[u16]) -> EventFilter {
    EventFilter {
        ids: None,
        authors: None,
        kinds: Some(ks.to_vec()),
        since: None,
        until: None,
        limit: None,
        tags: Vec::new(),
    }
}

fn open_filter() -> EventFilter {
    EventFilter {
        ids: None,
        authors: None,
        kinds: None,
        since: None,
        until: None,
        limit: None,
        tags: Vec::new(),
    }
}

#[test]
fn valid_event_acknowledged() {
    let w = signed_event(1, "hello");
    let ev = plain(&w);
    let mut subs = SubscriptionSet::new();
    let out = dispatch(&mut subs, ClientMessage::Event(ev));
    assert_eq!(out.len(), 1);
    match &out[0] {
        RelayMessage::OkMsg { event_id, accepted, message } => {
            assert_eq!(event_id.as_str(), w.id.to_hex().as_str());
            assert!(*accepted);
            assert_eq!(message.as_str(), "");
        },
        _ => panic!("expected an OK result"),
    }
}

#[test]
fn tampered_content_rejected() {
    let w = signed_event(1, "hello");
    let mut ev = plain(&w);
    ev.content = "tampered".to_string();
    let mut subs = SubscriptionSet::new();
    subs.subscribe("sub1".to_string(), vec![open_filter()]);
    let out = dispatch(&mut subs, ClientMessage::Event(ev));
    assert_eq!(out.len(), 1, "no fan-out for a rejected event");
    match &out[0] {
        RelayMessage::OkMsg { event_id, accepted, message } => {
            assert_eq!(event_id.as_str(), w.id.to_hex().as_str());
            assert!(!*accepted);
            assert!(!message.is_empty());
        },
        _ => panic!("expected an OK result"),
    }
}

#[test]
fn tampered_id_rejected() {
    let w = signed_event(1, "hello");
    let mut ev = plain(&w);
    let mut id: Vec<char> = ev.id.chars().collect();
    id[0] = if id[0] == '0' { '1' } else { '0' };
    ev.id = id.into_iter().collect();
    let mut subs = SubscriptionSet::new();
    let out = dispatch(&mut subs, ClientMessage::Event(ev));
    assert_eq!(out.len(), 1);
    match &out[0] {
        RelayMessage::OkMsg { accepted, message, .. } => {
            assert!(!*accepted);
            assert!(!message.is_empty());
        },
        _ => panic!("expected an OK result"),
    }
}

#[test]
fn close_stops_fanout() {
    let mut subs = SubscriptionSet::new();
    let req = ClientMessage::Req {
        subscription_id: "sub1".to_string(),
        filters: vec![kinds_filter(&[1])],
    };
    let out = dispatch(&mut subs, req);
    assert_eq!(out.len(), 1);
    assert!(matches!(&out[0], RelayMessage::Eose { subscription_id } if subscription_id == "sub1"));

    let out = dispatch(&mut subs, ClientMessage::Close { subscription_id: "sub1".to_string() });
    assert_eq!(out.len(), 1);
    assert!(matches!(&out[0], RelayMessage::Closed { subscription_id, .. } if subscription_id == "sub1"));

    let w = signed_event(1, "a matching note");
    let out = dispatch(&mut subs, ClientMessage::Event(plain(&w)));
    assert_eq!(out.len(), 1, "no fan-out after close");
    assert!(matches!(&out[0], RelayMessage::OkMsg { accepted: true, .. }));

    let out = dispatch(&mut subs, ClientMessage::Close { subscription_id: "sub1".to_string() });
    assert_eq!(out.len(), 1, "closing again still confirms");
    assert!(matches!(&out[0], RelayMessage::Closed { subscription_id, .. } if subscription_id == "sub1"));
}

#[test]
fn req_replaces_filters() {
    let mut subs = SubscriptionSet::new();
    dispatch(
        &mut subs,
        ClientMessage::Req {
            subscription_id: "sub1".to_string(),
            filters: vec![kinds_filter(&[1])],
        },
    );
    dispatch(
        &mut subs,
        ClientMessage::Req {
            subscription_id: "sub1".to_string(),
            filters: vec![kinds_filter(&[2])],
        },
    );
    assert_eq!(subs.count(), 1, "same id replaces, never duplicates");

    let kind1 = signed_event(1, "kind one");
    let out = dispatch(&mut subs, ClientMessage::Event(plain(&kind1)));
    assert_eq!(out.len(), 1, "the old filter set no longer matches");

    let kind2 = signed_event(2, "kind two");
    let out = dispatch(&mut subs, ClientMessage::Event(plain(&kind2)));
    assert_eq!(out.len(), 2, "the new filter set matches");
    match &out[1] {
        RelayMessage::Event { subscription_id, event } => {
            assert_eq!(subscription_id.as_str(), "sub1");
            assert_eq!(event.id.as_str(), kind2.id.to_hex().as_str());
        },
        _ => panic!("expected a fan-out frame"),
    }
}

#[test]
fn matching_is_pure_and_order_invariant() {
    let w = signed_event(1, "note");
    let ev = plain(&w);
    let fs = vec![kinds_filter(&[2]), kinds_filter(&[1])];
    let first = sndstr::filter::event_matches_any(&ev, &fs);
    let second = sndstr::filter::event_matches_any(&ev, &fs);
    assert_eq!(first, second, "repeated evaluation agrees");
    assert!(first);
    let reversed = vec![kinds_filter(&[1]), kinds_filter(&[2])];
    assert_eq!(sndstr::filter::event_matches_any(&ev, &reversed), first, "order is irrelevant");
    let neither = vec![kinds_filter(&[3]), kinds_filter(&[4])];
    assert!(!sndstr::filter::event_matches_any(&ev, &neither));
}

#[test]
fn filter_constraints_conjoin() {
    let w = signed_event_with_tag(1, "tagged", &["t", "news"]);
    let ev = plain(&w);

    let mut f = open_filter();
    assert!(sndstr::filter::event_matches_filter(&ev, &f), "no constraint admits everything");

    f.ids = Some(vec![w.id.to_hex()]);
    f.authors = Some(vec![w.pubkey.to_hex()]);
    f.kinds = Some(vec![1]);
    f.since = Some(ev.created_at);
    f.until = Some(ev.created_at);
    f.tags = vec![TagQuery { name: "t".to_string(), values: vec!["news".to_string()] }];
    assert!(sndstr::filter::event_matches_filter(&ev, &f), "every constraint satisfied");

    let mut wrong_id = f.clone();
    wrong_id.ids = Some(vec!["00".repeat(32)]);
    assert!(!sndstr::filter::event_matches_filter(&ev, &wrong_id));

    let mut too_late = f.clone();
    too_late.since = Some(ev.created_at + 1);
    assert!(!sndstr::filter::event_matches_filter(&ev, &too_late));

    let mut too_early = f.clone();
    too_early.until = Some(ev.created_at - 1);
    assert!(!sndstr::filter::event_matches_filter(&ev, &too_early));

    let mut wrong_tag = f.clone();
    wrong_tag.tags = vec![TagQuery { name: "t".to_string(), values: vec!["sport".to_string()] }];
    assert!(!sndstr::filter::event_matches_filter(&ev, &wrong_tag));
}

#[test]
fn malformed_frame_draws_one_notice_and_session_survives() {
    let mut subs = SubscriptionSet::new();
    let out = handle_frame(&mut subs, "this is not json");
    assert_eq!(out.len(), 1);
    match nostr::message::RelayMessage::from_json(&out[0]).unwrap() {
        nostr::message::RelayMessage::Notice(_) => {},
        other => panic!("expected a NOTICE, got {:?}", other),
    }

    let w = signed_event(1, "still alive");
    let frame = nostr::message::ClientMessage::event(w.clone()).as_json();
    let out = handle_frame(&mut subs, &frame);
    assert_eq!(out.len(), 1);
    assert_eq!(out[0], format!("[\"OK\",\"{}\",true,\"\"]", w.id.to_hex()));
}

#[test]
fn end_to_end_req_eose_event_fanout() {
    let mut subs = SubscriptionSet::new();
    let out = handle_frame(&mut subs, "[\"REQ\",\"sub1\",{\"kinds\":[1]}]");
    assert_eq!(out, vec!["[\"EOSE\",\"sub1\"]".to_string()]);

    let w = signed_event(1, "hello world");
    let frame = nostr::message::ClientMessage::event(w.clone()).as_json();
    let out = handle_frame(&mut subs, &frame);
    assert_eq!(out.len(), 2, "acknowledgement, then fan-out");
    assert_eq!(out[0], format!("[\"OK\",\"{}\",true,\"\"]", w.id.to_hex()));
    let expected = nostr::message::RelayMessage::event(
        nostr::message::SubscriptionId::new("sub1"),
        w.clone(),
    )
    .as_json();
    assert_eq!(out[1], expected, "the fan-out frame is the standard wire form");
}

#[test]
fn close_frame_confirms_even_unknown() {
    let mut subs = SubscriptionSet::new();
    let out = handle_frame(&mut subs, "[\"CLOSE\",\"nope\"]");
    assert_eq!(out, vec!["[\"CLOSED\",\"nope\",\"\"]".to_string()]);
}

#[test]
fn unsupported_kind_draws_notice() {
    let mut subs = SubscriptionSet::new();
    let out = handle_frame(&mut subs, "[\"COUNT\",\"sub1\",{}]");
    assert_eq!(out, vec!["[\"NOTICE\",\"unsupported message kind\"]".to_string()]);
}

#[test]
fn req_with_no_filters_matches_nothing() {
    let mut subs = SubscriptionSet::new();
    let out = dispatch(
        &mut subs,
        ClientMessage::Req { subscription_id: "empty".to_string(), filters: Vec::new() },
    );
    assert_eq!(out.len(), 1);
    assert!(matches!(&out[0], RelayMessage::Eose { subscription_id } if subscription_id == "empty"));
    let w = signed_event(1, "unseen");
    let out = dispatch(&mut subs, ClientMessage::Event(plain(&w)));
    assert_eq!(out.len(), 1, "an empty filter set matches no event");
}

#[test]
fn tampered_event_frame_gets_exact_rejection() {
    let w = signed_event(1, "honest words");
    let mut forged = w.clone();
    forged.content = "forged words".to_string();
    let frame = nostr::message::ClientMessage::event(forged).as_json();
    let mut subs = SubscriptionSet::new();
    let out = handle_frame(&mut subs, &frame);
    assert_eq!(
        out,
        vec![format!(
            "[\"OK\",\"{}\",false,\"invalid: bad signature or id\"]",
            w.id.to_hex()
        )]
    );
}

#[test]
fn registry_tracks_connections_and_fanout() {
    let mut reg = sndstr::registry::Registry::new();
    reg.subscribe(1, "a".to_string(), vec![kinds_filter(&[1])]);
    reg.subscribe(2, "b".to_string(), vec![open_filter()]);

    let w = signed_event(1, "note");
    let ev = plain(&w);
    let targets = reg.fanout(&ev);
    assert_eq!(targets.len(), 2, "both connections are interested");
    assert_eq!(targets[0].conn, 1);
    assert_eq!(targets[0].subscription_id.as_str(), "a");
    assert_eq!(targets[1].conn, 2);
    assert_eq!(targets[1].subscription_id.as_str(), "b");

    reg.subscribe(1, "a".to_string(), vec![kinds_filter(&[2])]);
    let targets = reg.fanout(&ev);
    assert_eq!(targets.len(), 1, "the replaced filter set no longer matches");
    assert_eq!(targets[0].conn, 2);

    reg.unsubscribe(2, &"b".to_string());
    assert_eq!(reg.fanout(&ev).len(), 0, "an unsubscribed interest is gone");

    reg.subscribe(3, "c".to_string(), vec![open_filter()]);
    reg.drop_conn(3);
    assert_eq!(reg.fanout(&ev).len(), 0, "a dropped connection leaves nothing behind");
}

#[test]
fn tag_filter_decoded_from_wire_matches() {
    let mut subs = SubscriptionSet::new();
    let out = handle_frame(&mut subs, "[\"REQ\",\"tags\",{\"#t\":[\"news\"]}]");
    assert_eq!(out, vec!["[\"EOSE\",\"tags\"]".to_string()]);

    let tagged = signed_event_with_tag(1, "tagged", &["t", "news"]);
    let frame = nostr::message::ClientMessage::event(tagged).as_json();
    let out = handle_frame(&mut subs, &frame);
    assert_eq!(out.len(), 2, "the tagged event is delivered");

    let untagged = signed_event(1, "untagged");
    let frame = nostr::message::ClientMessage::event(untagged).as_json();
    let out = handle_frame(&mut subs, &frame);
    assert_eq!(out.len(), 1, "an event without the tag is not delivered");
}

#[test]
fn full_filter_decoded_from_wire_matches() {
    let w = signed_event(1, "constrained");
    let req = format!(
        "[\"REQ\",\"all\",{{\"ids\":[\"{}\"],\"authors\":[\"{}\"],\"kinds\":[1],\"since\":{},\"until\":{}}}]",
        w.id.to_hex(),
        w.pubkey.to_hex(),
        w.created_at.as_secs() - 10,
        w.created_at.as_secs() + 10,
    );
    let mut subs = SubscriptionSet::new();
    let out = handle_frame(&mut subs, &req);
    assert_eq!(out, vec!["[\"EOSE\",\"all\"]".to_string()]);

    let frame = nostr::message::ClientMessage::event(w).as_json();
    let out = handle_frame(&mut subs, &frame);
    assert_eq!(out.len(), 2, "every decoded constraint is satisfied");

    let other = signed_event(1, "different author");
    let frame = nostr::message::ClientMessage::event(other).as_json();
    let out = handle_frame(&mut subs, &frame);
    assert_eq!(out.len(), 1, "another author's event is filtered out");
}

#[test]
fn subscription_lookup_follows_lifecycle() {
    let mut subs = SubscriptionSet::new();
    let id = "live".to_string();
    assert!(!subs.is_subscribed(&id));
    subs.subscribe(id.clone(), vec![open_filter()]);
    assert!(subs.is_subscribed(&id));
    assert!(subs.unsubscribe(&id), "the first close removes it");
    assert!(!subs.is_subscribed(&id));
    assert!(!subs.unsubscribe(&id), "a second close finds nothing");
}
