use bucface::broker::handle_client_message;
use bucface::codec::encode_client_message;
use bucface::event::{ClientMessage, Event, EventDB, EventDBError, ServerResponse, Timestamp};
use bucface::store::EventStore;

fn event_n(n: u64) -> Event {
    Event {
        author: format!("author-{n}"),
        machine: format!("machine-{n}"),
        event: format!("event-{n}"),
        time: Timestamp { micros: n as i64 },
    }
}

#[test]
fn test_insert_event() {
    let mut store = EventStore::new();
    for i in 0..100u64 {
        let rec = store
            .insert_event(event_n(i))
            .expect("Failed to insert event");
        assert_eq!(rec._id, i);
        assert_eq!(rec.event, format!("event-{i}"));
    }
    assert_eq!(store.len(), 100);
}

#[test]
fn test_get_events() {
    let mut store = EventStore::new();
    let mut inserted: Vec<EventDB> = Vec::new();
    for i in 0..100u64 {
        let rec = store
            .insert_event(event_n(i))
            .expect("Failed to insert event");
        inserted.push(rec);
    }

    let fetched = store.get_events_since(0).expect("Failed to get events");
    assert_eq!(fetched.len(), inserted.len());
    for (a, b) in inserted.iter().zip(fetched.iter()) {
        assert_eq!(a, b);
    }
}

#[test]
fn lookup_returns_the_inserted_record() {
    let mut store = EventStore::new();
    let rec = store.insert_event(event_n(0)).unwrap();
    let found = store.get_event(0).expect("id 0 must be stored");
    assert_eq!(found, rec);
}

#[test]
fn lookup_of_unassigned_id_is_not_found() {
    let mut store = EventStore::new();
    store.insert_event(event_n(0)).unwrap();
    assert!(matches!(store.get_event(1), Err(EventDBError::NotFound)));
    assert!(matches!(
        EventStore::new().get_event(0),
        Err(EventDBError::NotFound)
    ));
}

#[test]
fn scan_with_no_match_is_not_found() {
    let mut store = EventStore::new();
    assert!(matches!(
        store.get_events_since(0),
        Err(EventDBError::NotFound)
    ));
    store.insert_event(event_n(0)).unwrap();
    assert!(matches!(
        store.get_events_since(1),
        Err(EventDBError::NotFound)
    ));
}

#[test]
fn scan_since_returns_the_suffix_in_order() {
    let mut store = EventStore::new();
    for i in 0..10u64 {
        store.insert_event(event_n(i)).unwrap();
    }
    let tail = store.get_events_since(7).unwrap();
    assert_eq!(tail.len(), 3);
    assert_eq!(tail[0]._id, 7);
    assert_eq!(tail[1]._id, 8);
    assert_eq!(tail[2]._id, 9);
}

#[test]
fn test_handle_new_event() {
    for i in 0..100u64 {
        let mut store = EventStore::new();
        let event = event_n(i);
        let buf = encode_client_message(&ClientMessage::NewEvent(event.clone()));
        let result = handle_client_message(&mut store, &buf);
        assert_eq!(result.len(), 1);
        match &result[0] {
            ServerResponse::Event(rec) => {
                assert_eq!(rec._id, 0);
                assert_eq!(rec.event, event.event);
            }
            other => panic!("expected an event record, got {other:?}"),
        }
    }
}

#[test]
fn test_handle_get_since() {
    let mut store = EventStore::new();

    let mut events: Vec<Event> = Vec::new();
    for i in 0..10u64 {
        events.push(event_n(i));
    }
    for event in &events {
        let buf = encode_client_message(&ClientMessage::NewEvent(event.clone()));
        let response = handle_client_message(&mut store, &buf);
        assert_eq!(response.len(), 1);
        match &response[0] {
            ServerResponse::Event(rec) => assert_eq!(rec.event, event.event),
            other => panic!("expected an event record, got {other:?}"),
        }
    }

    let buf = encode_client_message(&ClientMessage::GetSince(0));
    let result = handle_client_message(&mut store, &buf);

    let events_db: Vec<EventDB> = events
        .drain(..)
        .enumerate()
        .map(|(i, event)| EventDB::from(event, i.try_into().unwrap()))
        .collect();

    assert_eq!(result.len(), events_db.len());
    for (resp, expected) in result.iter().zip(events_db.iter()) {
        match resp {
            ServerResponse::Event(rec) => assert_eq!(rec, expected),
            other => panic!("expected an event record, got {other:?}"),
        }
    }
}
