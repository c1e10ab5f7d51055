//! Typed protocol messages exchanged between a client and the relay, with
//! their mathematical views. An event is held as plain data (hex strings,
//! integers, tag lists); its cryptographic validity is checked through the
//! codec boundary.

use vstd::prelude::*;

verus! {

/// A signed event as plain data: the `id`, `pubkey` and `sig` fields hold
/// the usual hexadecimal encodings from the wire format.
pub struct SignedEvent {
    pub id: String,
    pub pubkey: String,
    pub created_at: u64,
    pub kind: u16,
    pub tags: Vec<Vec<String>>,
    pub content: String,
    pub sig: String,
}

/// Mathematical view of an [`SignedEvent`].
pub struct EventData {
    pub id: Seq<char>,
    pub pubkey: Seq<char>,
    pub created_at: u64,
    pub kind: u16,
    pub tags: Seq<Seq<Seq<char>>>,
    pub content: Seq<char>,
    pub sig: Seq<char>,
}

impl View for SignedEvent {
    type V = EventData;

    open spec fn view(&self) -> EventData {
        EventData {
            id: self.id@,
            pubkey: self.pubkey@,
            created_at: self.created_at,
            kind: self.kind,
            tags: self.tags.deep_view(),
            content: self.content@,
            sig: self.sig@,
        }
    }
}

impl DeepView for SignedEvent {
    type V = EventData;

    open spec fn deep_view(&self) -> EventData {
        self.view()
    }
}

/// One tag constraint of a filter: the event must carry a tag whose name is
/// `name` and whose first value is one of `values`.
#[derive(Clone)]
pub struct TagQuery {
    pub name: String,
    pub values: Vec<String>,
}

/// Mathematical view of a [`TagQuery`].
pub struct TagQueryData {
    pub name: Seq<char>,
    pub values: Seq<Seq<char>>,
}

impl View for TagQuery {
    type V = TagQueryData;

    open spec fn view(&self) -> TagQueryData {
        TagQueryData { name: self.name@, values: self.values.deep_view() }
    }
}

impl DeepView for TagQuery {
    type V = TagQueryData;

    open spec fn deep_view(&self) -> TagQueryData {
        self.view()
    }
}

/// A subscription filter: a conjunction of optional constraints. An absent
/// constraint admits every event. `limit` bounds stored-event replies only
/// and takes no part in matching.
#[derive(Clone)]
pub struct EventFilter {
    pub ids: Option<Vec<String>>,
    pub authors: Option<Vec<String>>,
    pub kinds: Option<Vec<u16>>,
    pub since: Option<u64>,
    pub until: Option<u64>,
    pub limit: Option<u64>,
    pub tags: Vec<TagQuery>,
}

/// Mathematical view of a [`EventFilter`].
pub struct FilterData {
    pub ids: Option<Seq<Seq<char>>>,
    pub authors: Option<Seq<Seq<char>>>,
    pub kinds: Option<Seq<u16>>,
    pub since: Option<u64>,
    pub until: Option<u64>,
    pub limit: Option<u64>,
    pub tags: Seq<TagQueryData>,
}

impl View for EventFilter {
    type V = FilterData;

    open spec fn view(&self) -> FilterData {
        FilterData {
            ids: self.ids.deep_view(),
            authors: self.authors.deep_view(),
            kinds: self.kinds.deep_view(),
            since: self.since,
            until: self.until,
            limit: self.limit,
            tags: self.tags.deep_view(),
        }
    }
}

impl DeepView for EventFilter {
    type V = FilterData;

    open spec fn deep_view(&self) -> FilterData {
        self.view()
    }
}

/// A decoded client message: the closed set of kinds the dispatcher acts on.
/// Recognized kinds that this relay does not serve decode to `Unsupported`.
pub enum ClientMessage {
    Event(SignedEvent),
    Req { subscription_id: String, filters: Vec<EventFilter> },
    Close { subscription_id: String },
    Unsupported,
}

/// Mathematical view of a [`ClientMessage`].
pub enum ClientMessageData {
    Event(EventData),
    Req { subscription_id: Seq<char>, filters: Seq<FilterData> },
    Close { subscription_id: Seq<char> },
    Unsupported,
}

impl View for ClientMessage {
    type V = ClientMessageData;

    open spec fn view(&self) -> ClientMessageData {
        match self {
            ClientMessage::Event(e) => ClientMessageData::Event(e@),
            ClientMessage::Req { subscription_id, filters } => ClientMessageData::Req {
                subscription_id: subscription_id@,
                filters: filters.deep_view(),
            },
            ClientMessage::Close { subscription_id } => ClientMessageData::Close {
                subscription_id: subscription_id@,
            },
            ClientMessage::Unsupported => ClientMessageData::Unsupported,
        }
    }
}

impl DeepView for ClientMessage {
    type V = ClientMessageData;

    open spec fn deep_view(&self) -> ClientMessageData {
        self.view()
    }
}

/// An outbound relay message: the closed set of responses the dispatcher
/// produces.
pub enum RelayMessage {
    OkMsg { event_id: String, accepted: bool, message: String },
    Event { subscription_id: String, event: SignedEvent },
    Eose { subscription_id: String },
    Closed { subscription_id: String, message: String },
    Notice { message: String },
}

/// Mathematical view of a [`RelayMessage`].
pub enum RelayMessageData {
    OkMsg { event_id: Seq<char>, accepted: bool, message: Seq<char> },
    Event { subscription_id: Seq<char>, event: EventData },
    Eose { subscription_id: Seq<char> },
    Closed { subscription_id: Seq<char>, message: Seq<char> },
    Notice { message: Seq<char> },
}

impl View for RelayMessage {
    type V = RelayMessageData;

    open spec fn view(&self) -> RelayMessageData {
        match self {
            RelayMessage::OkMsg { event_id, accepted, message } => RelayMessageData::OkMsg {
                event_id: event_id@,
                accepted: *accepted,
                message: message@,
            },
            RelayMessage::Event { subscription_id, event } => RelayMessageData::Event {
                subscription_id: subscription_id@,
                event: event@,
            },
            RelayMessage::Eose { subscription_id } => RelayMessageData::Eose {
                subscription_id: subscription_id@,
            },
            RelayMessage::Closed { subscription_id, message } => RelayMessageData::Closed {
                subscription_id: subscription_id@,
                message: message@,
            },
            RelayMessage::Notice { message } => RelayMessageData::Notice { message: message@ },
        }
    }
}

impl DeepView for RelayMessage {
    type V = RelayMessageData;

    open spec fn deep_view(&self) -> RelayMessageData {
        self.view()
    }
}

/// True of a character that may appear in a hexadecimal encoding.
pub open spec fn is_hex_digit(c: char) -> bool {
    ('0' <= c && c <= '9') || ('a' <= c && c <= 'f') || ('A' <= c && c <= 'F')
}

/// True of the hexadecimal encoding of a 32-byte value, as event ids and
/// public keys are written on the wire.
pub open spec fn is_hex64(s: Seq<char>) -> bool {
    s.len() == 64 && forall|i: int| 0 <= i < s.len() ==> is_hex_digit(#[trigger] s[i])
}

/// Clones a tag list, preserving its view.
fn clone_tags(tags: &Vec<Vec<String>>) -> (r: Vec<Vec<String>>)
    ensures
        r.deep_view() == tags.deep_view(),
{
    let mut r: Vec<Vec<String>> = Vec::new();
    let mut i: usize = 0;
    while i < tags.len()
        invariant
            i <= tags.len(),
            r@.len() == i,
            r.deep_view() =~~= tags.deep_view().take(i as int),
        decreases tags.len() - i,
    {
        let mut t: Vec<String> = Vec::new();
        let mut j: usize = 0;
        while j < tags[i].len()
            invariant
                i < tags.len(),
                j <= tags[i as int].len(),
                t@.len() == j,
                t.deep_view() =~~= tags[i as int].deep_view().take(j as int),
            decreases tags[i as int].len() - j,
        {
            t.push(tags[i][j].clone());
            j = j + 1;
        }
        assert(t.deep_view() =~~= tags[i as int].deep_view());
        r.push(t);
        assert(r.deep_view() =~~= tags.deep_view().take(i as int + 1));
        i = i + 1;
    }
    assert(r.deep_view() =~~= tags.deep_view());
    r
}

impl Clone for SignedEvent {
    /// Clones an event, preserving its view.
    fn clone(&self) -> (r: Self)
        ensures
            r@ == self@,
    {
        let r = SignedEvent {
            id: self.id.clone(),
            pubkey: self.pubkey.clone(),
            created_at: self.created_at,
            kind: self.kind,
            tags: clone_tags(&self.tags),
            content: self.content.clone(),
            sig: self.sig.clone(),
        };
        assert(r@ =~~= self@);
        r
    }
}

} // verus!
