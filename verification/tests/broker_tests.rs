use bucface::broker::{handle_client_message, handle_frame};
use bucface::codec::encode_client_message;
use bucface::event::{
    ClientMessage, Event, EventDBErrorSerde, ServerResponse, Timestamp, WsFrame,
};
use bucface::store::EventStore;

#[test]
fn submit_then_lookup_then_get_since() {
    // a client submits one event; the broker assigns id 0; a point lookup
    // and a second client's range scan both yield exactly that record
    let mut store = EventStore::new();
    let event = Event {
        author: "alice".to_string(),
        machine: "m1".to_string(),
        event: "hello".to_string(),
        time: Timestamp { micros: 123 },
    };

    let buf = encode_client_message(&ClientMessage::NewEvent(event.clone()));
    let responses = handle_client_message(&mut store, &buf);
    assert_eq!(responses.len(), 1);
    match &responses[0] {
        ServerResponse::Event(rec) => {
            assert_eq!(rec._id, 0);
            assert_eq!(rec.author, "alice");
            assert_eq!(rec.machine, "m1");
            assert_eq!(rec.event, "hello");
            assert_eq!(rec.time, Timestamp { micros: 123 });
        }
        other => panic!("expected an event record, got {other:?}"),
    }

    let stored = store.get_event(0).expect("lookup(0) must succeed");
    assert_eq!(stored.author, "alice");
    assert_eq!(stored.event, "hello");

    let buf = encode_client_message(&ClientMessage::GetSince(0));
    let responses = handle_client_message(&mut store, &buf);
    assert_eq!(responses.len(), 1);
    match &responses[0] {
        ServerResponse::Event(rec) => {
            assert_eq!(rec._id, 0);
            assert_eq!(rec.author, "alice");
            assert_eq!(rec.machine, "m1");
            assert_eq!(rec.event, "hello");
        }
        other => panic!("expected an event record, got {other:?}"),
    }
}

#[test]
fn get_event_for_missing_id_reports_not_found() {
    let mut store = EventStore::new();
    let buf = encode_client_message(&ClientMessage::GetEvent(4));
    let responses = handle_client_message(&mut store, &buf);
    assert_eq!(
        responses,
        vec![ServerResponse::Error(EventDBErrorSerde::NotFound)]
    );
}

#[test]
fn get_since_with_no_match_reports_not_found() {
    let mut store = EventStore::new();
    let buf = encode_client_message(&ClientMessage::GetSince(0));
    let responses = handle_client_message(&mut store, &buf);
    assert_eq!(
        responses,
        vec![ServerResponse::Error(EventDBErrorSerde::NotFound)]
    );
}

#[test]
fn ping_message_is_answered_with_pong() {
    let mut store = EventStore::new();
    let buf = encode_client_message(&ClientMessage::Ping(b"probe".to_vec()));
    let responses = handle_client_message(&mut store, &buf);
    assert_eq!(responses, vec![ServerResponse::Pong(b"probe".to_vec())]);
    assert_eq!(store.len(), 0);
}

#[test]
fn malformed_frame_costs_one_error_and_nothing_else() {
    let mut store = EventStore::new();
    let responses = handle_client_message(&mut store, &vec![99, 1, 2]);
    assert_eq!(
        responses,
        vec![ServerResponse::Error(EventDBErrorSerde::Rmp)]
    );
    assert_eq!(store.len(), 0);
}

#[test]
fn transport_ping_frame_is_echoed() {
    let mut store = EventStore::new();
    let (responses, done) = handle_frame(&mut store, &WsFrame::Ping(b"hi".to_vec()));
    assert_eq!(responses, vec![ServerResponse::Pong(b"hi".to_vec())]);
    assert!(!done);
}

#[test]
fn close_frame_acknowledges_and_ends_the_loop() {
    let mut store = EventStore::new();
    let (responses, done) = handle_frame(&mut store, &WsFrame::Close(Vec::new()));
    assert_eq!(
        responses,
        vec![ServerResponse::Close(b"Received close request".to_vec())]
    );
    assert!(done);
}

#[test]
fn text_and_pong_frames_are_ignored() {
    let mut store = EventStore::new();
    let (responses, done) = handle_frame(&mut store, &WsFrame::Text("hi".to_string()));
    assert!(responses.is_empty());
    assert!(!done);
    let (responses, done) = handle_frame(&mut store, &WsFrame::Pong(b"x".to_vec()));
    assert!(responses.is_empty());
    assert!(!done);
}

#[test]
fn binary_frame_is_dispatched_as_a_client_message() {
    let mut store = EventStore::new();
    let event = Event {
        author: "bob".to_string(),
        machine: "m2".to_string(),
        event: "via frame".to_string(),
        time: Timestamp { micros: 9 },
    };
    let buf = encode_client_message(&ClientMessage::NewEvent(event));
    let (responses, done) = handle_frame(&mut store, &WsFrame::Binary(buf));
    assert_eq!(responses.len(), 1);
    assert!(!done);
    assert_eq!(store.len(), 1);
}
