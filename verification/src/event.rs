//! The data model: events as submitted by clients, persisted events with
//! their broker-assigned sequence id, the client request and server response
//! sum types, and the error taxonomy.

use vstd::prelude::*;

verus! {

/// A point in time, in microseconds relative to the Unix epoch.
///
/// The surrounding system keeps timestamps only to carry them around and
/// display them, so a single integer is the whole model.
#[derive(Clone, Copy, Debug, PartialEq, Eq, Structural)]
pub struct Timestamp {
    pub micros: i64,
}

/// A submitted, unpersisted record: who wrote it, on which machine, the text
/// body, and when. Never carries an id; ids exist only once the broker has
/// persisted the event.
#[derive(Debug)]
pub struct Event {
    pub author: String,
    pub machine: String,
    pub event: String,
    pub time: Timestamp,
}

/// Mathematical value of an [`Event`]: the field strings as character
/// sequences plus the timestamp.
#[verifier::ext_equal]
pub ghost struct EventView {
    pub author: Seq<char>,
    pub machine: Seq<char>,
    pub event: Seq<char>,
    pub time: i64,
}

impl View for Event {
    type V = EventView;

    open spec fn view(&self) -> EventView {
        EventView {
            author: self.author@,
            machine: self.machine@,
            event: self.event@,
            time: self.time.micros,
        }
    }
}

impl DeepView for Event {
    type V = EventView;

    open spec fn deep_view(&self) -> EventView {
        self.view()
    }
}

impl Clone for Event {
    fn clone(&self) -> (r: Self)
        ensures
            r == *self,
    {
        Self {
            author: self.author.clone(),
            machine: self.machine.clone(),
            event: self.event.clone(),
            time: self.time,
        }
    }
}

impl PartialEq for Event {
    fn eq(&self, other: &Self) -> (r: bool) {
        self.author == other.author && self.machine == other.machine
            && self.event == other.event && self.time == other.time
    }
}

impl vstd::std_specs::cmp::PartialEqSpecImpl for Event {
    open spec fn obeys_eq_spec() -> bool {
        true
    }

    open spec fn eq_spec(&self, other: &Self) -> bool {
        self@ == other@
    }
}

/// An [`Event`] plus the sequence id the broker assigned at insert time.
#[derive(Debug)]
pub struct EventDB {
    pub _id: u64,
    pub author: String,
    pub machine: String,
    pub event: String,
    pub time: Timestamp,
}

/// Mathematical value of an [`EventDB`].
#[verifier::ext_equal]
pub ghost struct EventDBView {
    pub id: u64,
    pub author: Seq<char>,
    pub machine: Seq<char>,
    pub event: Seq<char>,
    pub time: i64,
}

impl View for EventDB {
    type V = EventDBView;

    open spec fn view(&self) -> EventDBView {
        EventDBView {
            id: self._id,
            author: self.author@,
            machine: self.machine@,
            event: self.event@,
            time: self.time.micros,
        }
    }
}

impl DeepView for EventDB {
    type V = EventDBView;

    open spec fn deep_view(&self) -> EventDBView {
        self.view()
    }
}

impl Clone for EventDB {
    fn clone(&self) -> (r: Self)
        ensures
            r == *self,
    {
        Self {
            _id: self._id,
            author: self.author.clone(),
            machine: self.machine.clone(),
            event: self.event.clone(),
            time: self.time,
        }
    }
}

impl PartialEq for EventDB {
    fn eq(&self, other: &Self) -> (r: bool) {
        self._id == other._id && self.author == other.author
            && self.machine == other.machine && self.event == other.event
            && self.time == other.time
    }
}

impl vstd::std_specs::cmp::PartialEqSpecImpl for EventDB {
    open spec fn obeys_eq_spec() -> bool {
        true
    }

    open spec fn eq_spec(&self, other: &Self) -> bool {
        self@ == other@
    }
}

/// The persisted record an [`Event`] becomes under a given sequence id.
pub open spec fn spec_event_db(ev: EventView, id: u64) -> EventDBView {
    EventDBView { id: id, author: ev.author, machine: ev.machine, event: ev.event, time: ev.time }
}

impl EventDB {
    /// Attach a sequence id to a submitted event, making it a persisted record.
    pub fn from(event: Event, id: u64) -> (r: Self)
        ensures
            r@ == spec_event_db(event@, id),
    {
        Self {
            _id: id,
            author: event.author,
            machine: event.machine,
            event: event.event,
            time: event.time,
        }
    }
}

impl From<EventDB> for Event {
    fn from(event: EventDB) -> (r: Self) {
        Self {
            author: event.author,
            machine: event.machine,
            event: event.event,
            time: event.time,
        }
    }
}

impl vstd::std_specs::convert::FromSpecImpl<EventDB> for Event {
    open spec fn obeys_from_spec() -> bool {
        true
    }

    open spec fn from_spec(event: EventDB) -> Self {
        Event {
            author: event.author,
            machine: event.machine,
            event: event.event,
            time: event.time,
        }
    }
}

/// Byte-string equality, stated over the views.
pub fn bytes_eq(a: &Vec<u8>, b: &Vec<u8>) -> (r: bool)
    ensures
        r == (a@ == b@),
{
    let r = *a == *b;
    proof {
        if r {
            assert(a@ =~= b@);
        }
    }
    r
}

/// A request a client sends over its session, one shot and stateless.
#[derive(Clone, Debug)]
pub enum ClientMessage {
    /// A message to add to the event log.
    NewEvent(Event),
    /// A message that requests the event with the given id.
    GetEvent(u64),
    /// A message that requests all events since and including the given id.
    GetSince(u64),
    /// A liveness probe; the broker answers with a pong echoing the payload.
    Ping(Vec<u8>),
}

/// Mathematical value of a [`ClientMessage`].
#[verifier::ext_equal]
pub ghost enum ClientMessageView {
    NewEvent(EventView),
    GetEvent(u64),
    GetSince(u64),
    Ping(Seq<u8>),
}

impl View for ClientMessage {
    type V = ClientMessageView;

    open spec fn view(&self) -> ClientMessageView {
        match self {
            ClientMessage::NewEvent(ev) => ClientMessageView::NewEvent(ev@),
            ClientMessage::GetEvent(id) => ClientMessageView::GetEvent(*id),
            ClientMessage::GetSince(id) => ClientMessageView::GetSince(*id),
            ClientMessage::Ping(p) => ClientMessageView::Ping(p@),
        }
    }
}

impl DeepView for ClientMessage {
    type V = ClientMessageView;

    open spec fn deep_view(&self) -> ClientMessageView {
        self.view()
    }
}

impl PartialEq for ClientMessage {
    fn eq(&self, other: &Self) -> (r: bool) {
        match (self, other) {
            (ClientMessage::NewEvent(a), ClientMessage::NewEvent(b)) => *a == *b,
            (ClientMessage::GetEvent(a), ClientMessage::GetEvent(b)) => *a == *b,
            (ClientMessage::GetSince(a), ClientMessage::GetSince(b)) => *a == *b,
            (ClientMessage::Ping(a), ClientMessage::Ping(b)) => bytes_eq(a, b),
            _ => false,
        }
    }
}

impl vstd::std_specs::cmp::PartialEqSpecImpl for ClientMessage {
    open spec fn obeys_eq_spec() -> bool {
        true
    }

    open spec fn eq_spec(&self, other: &Self) -> bool {
        self@ == other@
    }
}

/// The error taxonomy of the persistence side of the broker.
#[derive(Clone, Debug)]
pub enum EventDBError {
    /// The underlying store failed; the detail names the failure.
    Db(String),
    /// The requested id (or range) matched nothing.
    NotFound,
    /// A message could not be encoded for the wire.
    RmpEncode,
    /// A frame from the wire could not be decoded.
    RmpDecode,
}

/// The wire-safe form of [`EventDBError`], carried inside error responses.
#[derive(Debug)]
pub enum EventDBErrorSerde {
    Db(String),
    NotFound,
    Rmp,
}

impl Clone for EventDBErrorSerde {
    fn clone(&self) -> (r: Self)
        ensures
            r == *self,
    {
        match self {
            EventDBErrorSerde::Db(s) => EventDBErrorSerde::Db(s.clone()),
            EventDBErrorSerde::NotFound => EventDBErrorSerde::NotFound,
            EventDBErrorSerde::Rmp => EventDBErrorSerde::Rmp,
        }
    }
}

/// Mathematical value of an [`EventDBErrorSerde`].
#[verifier::ext_equal]
pub ghost enum ErrorSerdeView {
    Db(Seq<char>),
    NotFound,
    Rmp,
}

impl View for EventDBErrorSerde {
    type V = ErrorSerdeView;

    open spec fn view(&self) -> ErrorSerdeView {
        match self {
            EventDBErrorSerde::Db(s) => ErrorSerdeView::Db(s@),
            EventDBErrorSerde::NotFound => ErrorSerdeView::NotFound,
            EventDBErrorSerde::Rmp => ErrorSerdeView::Rmp,
        }
    }
}

impl DeepView for EventDBErrorSerde {
    type V = ErrorSerdeView;

    open spec fn deep_view(&self) -> ErrorSerdeView {
        self.view()
    }
}

impl PartialEq for EventDBErrorSerde {
    fn eq(&self, other: &Self) -> (r: bool) {
        match (self, other) {
            (EventDBErrorSerde::Db(a), EventDBErrorSerde::Db(b)) => *a == *b,
            (EventDBErrorSerde::NotFound, EventDBErrorSerde::NotFound) => true,
            (EventDBErrorSerde::Rmp, EventDBErrorSerde::Rmp) => true,
            _ => false,
        }
    }
}

impl vstd::std_specs::cmp::PartialEqSpecImpl for EventDBErrorSerde {
    open spec fn obeys_eq_spec() -> bool {
        true
    }

    open spec fn eq_spec(&self, other: &Self) -> bool {
        self@ == other@
    }
}

/// A response the broker produces; zero or more per request, broadcast to
/// every live connection.
#[derive(Clone, Debug)]
pub enum ServerResponse {
    /// One persisted record.
    Event(EventDB),
    /// A request failed; says how.
    Error(EventDBErrorSerde),
    /// Echo of a ping payload.
    Pong(Vec<u8>),
    /// The connection is closing, with a reason.
    Close(Vec<u8>),
}

/// Mathematical value of a [`ServerResponse`].
#[verifier::ext_equal]
pub ghost enum ServerResponseView {
    Event(EventDBView),
    Error(ErrorSerdeView),
    Pong(Seq<u8>),
    Close(Seq<u8>),
}

impl View for ServerResponse {
    type V = ServerResponseView;

    open spec fn view(&self) -> ServerResponseView {
        match self {
            ServerResponse::Event(e) => ServerResponseView::Event(e@),
            ServerResponse::Error(e) => ServerResponseView::Error(e@),
            ServerResponse::Pong(p) => ServerResponseView::Pong(p@),
            ServerResponse::Close(r) => ServerResponseView::Close(r@),
        }
    }
}

impl DeepView for ServerResponse {
    type V = ServerResponseView;

    open spec fn deep_view(&self) -> ServerResponseView {
        self.view()
    }
}

impl PartialEq for ServerResponse {
    fn eq(&self, other: &Self) -> (r: bool) {
        match (self, other) {
            (ServerResponse::Event(a), ServerResponse::Event(b)) => *a == *b,
            (ServerResponse::Error(a), ServerResponse::Error(b)) => *a == *b,
            (ServerResponse::Pong(a), ServerResponse::Pong(b)) => bytes_eq(a, b),
            (ServerResponse::Close(a), ServerResponse::Close(b)) => bytes_eq(a, b),
            _ => false,
        }
    }
}

impl vstd::std_specs::cmp::PartialEqSpecImpl for ServerResponse {
    open spec fn obeys_eq_spec() -> bool {
        true
    }

    open spec fn eq_spec(&self, other: &Self) -> bool {
        self@ == other@
    }
}

/// A response as handed to the application layer: the id it concerns and
/// either the event or the error the broker reported for it.
#[derive(Debug)]
pub struct EventDBResponse {
    pub id: u64,
    pub inner: Result<Event, EventDBErrorSerde>,
}

impl From<EventDB> for EventDBResponse {
    fn from(event: EventDB) -> (r: Self) {
        let id = event._id;
        Self { id, inner: Ok(Event::from(event)) }
    }
}

impl vstd::std_specs::convert::FromSpecImpl<EventDB> for EventDBResponse {
    open spec fn obeys_from_spec() -> bool {
        true
    }

    open spec fn from_spec(event: EventDB) -> Self {
        EventDBResponse {
            id: event._id,
            inner: Ok(vstd::std_specs::convert::FromSpec::from_spec(event)),
        }
    }
}

/// What an [`EventDBError`] becomes on the wire.
pub open spec fn spec_error_serde(e: EventDBError) -> ErrorSerdeView {
    match e {
        EventDBError::Db(s) => ErrorSerdeView::Db(s@),
        EventDBError::NotFound => ErrorSerdeView::NotFound,
        EventDBError::RmpEncode => ErrorSerdeView::Rmp,
        EventDBError::RmpDecode => ErrorSerdeView::Rmp,
    }
}

impl EventDBResponse {
    /// Tag a failed request with the id it concerned.
    pub fn from_err(id: u64, e: EventDBError) -> (r: Self)
        ensures
            r.id == id,
            r.inner matches Err(inner) && inner@ == spec_error_serde(e),
    {
        Self {
            id,
            inner: Err(
                match e {
                    EventDBError::Db(s) => EventDBErrorSerde::Db(s),
                    EventDBError::NotFound => EventDBErrorSerde::NotFound,
                    EventDBError::RmpEncode => EventDBErrorSerde::Rmp,
                    EventDBError::RmpDecode => EventDBErrorSerde::Rmp,
                },
            ),
        }
    }
}

/// One message-level frame of the duplex transport, as the connection hands
/// it to either end: control frames (ping, pong, close) next to the text and
/// binary payload frames that carry the encoded messages.
#[derive(Debug)]
pub enum WsFrame {
    Ping(Vec<u8>),
    Pong(Vec<u8>),
    Close(Vec<u8>),
    Text(String),
    Binary(Vec<u8>),
}

/// Mathematical value of a [`WsFrame`].
#[verifier::ext_equal]
pub ghost enum WsFrameView {
    Ping(Seq<u8>),
    Pong(Seq<u8>),
    Close(Seq<u8>),
    Text(Seq<char>),
    Binary(Seq<u8>),
}

impl View for WsFrame {
    type V = WsFrameView;

    open spec fn view(&self) -> WsFrameView {
        match self {
            WsFrame::Ping(p) => WsFrameView::Ping(p@),
            WsFrame::Pong(p) => WsFrameView::Pong(p@),
            WsFrame::Close(p) => WsFrameView::Close(p@),
            WsFrame::Text(s) => WsFrameView::Text(s@),
            WsFrame::Binary(b) => WsFrameView::Binary(b@),
        }
    }
}

impl DeepView for WsFrame {
    type V = WsFrameView;

    open spec fn deep_view(&self) -> WsFrameView {
        self.view()
    }
}

/// Relies on `chrono::Utc::now` and `DateTime::timestamp_micros` to read the
/// system clock; nothing is promised of the value.
#[verifier::external_body]
pub(crate) fn now_timestamp() -> Timestamp {
    Timestamp { micros: chrono::Utc::now().timestamp_micros() }
}

impl Default for Event {
    /// A placeholder record, stamped with the current clock.
    fn default() -> (r: Self)
        ensures
            r.author@ == "Default Author"@,
            r.machine@ == "Default Machine"@,
            r.event@ == "Default Event"@,
    {
        Self {
            author: "Default Author".to_owned(),
            machine: "Default Machine".to_owned(),
            event: "Default Event".to_owned(),
            time: now_timestamp(),
        }
    }
}

} // verus!
