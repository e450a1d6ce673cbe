use bucface::client::App;
use bucface::event::{
    ClientMessage, EventDB, EventDBErrorSerde, ServerResponse, Timestamp,
};

fn rec(id: u64) -> EventDB {
    EventDB {
        _id: id,
        author: "a".to_string(),
        machine: "m".to_string(),
        event: format!("e{id}"),
        time: Timestamp { micros: id as i64 },
    }
}

fn app_with_ids(ids: &[u64]) -> App<'static> {
    let mut app = App::new();
    for &id in ids {
        assert!(app.insert_log(rec(id)));
    }
    app
}

#[test]
fn new_app_has_defaults_and_empty_cache() {
    let app = App::new();
    assert_eq!(app.state.author, "Anonymous");
    assert_eq!(app.state.machine, "Unknown");
    assert_eq!(app.bufs.server, "localhost");
    assert_eq!(app.bufs.port, "8080");
    assert!(app.logs.is_empty());
    assert!(app.log_ids.is_empty());
}

#[test]
fn duplicate_insert_leaves_cardinality_unchanged() {
    let mut app = App::new();
    assert!(app.insert_log(rec(5)));
    let before = app.log_ids.len();
    assert!(!app.insert_log(rec(5)));
    assert_eq!(app.log_ids.len(), before);
    assert_eq!(app.logs.len(), before);
}

#[test]
fn inserts_keep_the_id_list_sorted() {
    let app = app_with_ids(&[7, 0, 4, 3, 1]);
    assert_eq!(app.log_ids, vec![0, 1, 3, 4, 7]);
    let cached: Vec<u64> = app.logs.iter().map(|r| r._id).collect();
    assert_eq!(cached, vec![0, 1, 3, 4, 7]);
}

#[test]
fn missing_ids_are_exactly_the_gaps() {
    let app = app_with_ids(&[0, 1, 3, 4, 7]);
    assert_eq!(app.get_missing_logs(), vec![2, 5, 6]);
}

#[test]
fn no_gaps_means_no_requests() {
    assert!(App::new().get_missing_logs().is_empty());
    let app = app_with_ids(&[0, 1, 2, 3]);
    assert!(app.get_missing_logs().is_empty());
}

#[test]
fn leading_gap_is_requested() {
    let app = app_with_ids(&[2, 3]);
    assert_eq!(app.get_missing_logs(), vec![0, 1]);
}

#[test]
fn missing_count_matches_the_walk_invariant() {
    // the number of requested ids equals last_id - (count - 1)
    let app = app_with_ids(&[1, 4, 9]);
    let missing = app.get_missing_logs();
    assert_eq!(missing.len() as u64, 9 - (3 - 1));
    assert_eq!(missing, vec![0, 2, 3, 5, 6, 7, 8]);
}

#[test]
fn get_logs_inserts_records_and_skips_control_responses() {
    let mut app = App::new();
    let responses = vec![
        ServerResponse::Event(rec(1)),
        ServerResponse::Pong(b"x".to_vec()),
        ServerResponse::Event(rec(0)),
        ServerResponse::Event(rec(1)),
        ServerResponse::Close(Vec::new()),
    ];
    let err = app.get_logs(&responses);
    assert!(err.is_none());
    assert_eq!(app.log_ids, vec![0, 1]);
    assert_eq!(app.logs.len(), app.log_ids.len());
}

#[test]
fn get_logs_stops_at_the_first_error() {
    let mut app = App::new();
    let responses = vec![
        ServerResponse::Event(rec(0)),
        ServerResponse::Error(EventDBErrorSerde::NotFound),
        ServerResponse::Event(rec(1)),
    ];
    let err = app.get_logs(&responses);
    assert_eq!(err, Some(EventDBErrorSerde::NotFound));
    // the record behind the error was not applied
    assert_eq!(app.log_ids, vec![0]);
}

#[test]
fn send_log_packages_the_buffer_and_clears_it() {
    let mut app = App::new();
    app.bufs.log = "typed text".to_string();
    let message = app.send_log();
    match message {
        ClientMessage::NewEvent(ev) => {
            assert_eq!(ev.author, "Anonymous");
            assert_eq!(ev.machine, "Unknown");
            assert_eq!(ev.event, "typed text");
        }
        other => panic!("expected a submission, got {other:?}"),
    }
    assert_eq!(app.bufs.log, "");
}

#[test]
fn create_event_from_buf_copies_state_and_buffer() {
    let mut app = App::new();
    app.bufs.log = "note".to_string();
    let ev = app.create_event_from_buf();
    assert_eq!(ev.author, "Anonymous");
    assert_eq!(ev.machine, "Unknown");
    assert_eq!(ev.event, "note");
}

#[test]
fn clear_logs_empties_the_cache() {
    let mut app = app_with_ids(&[0, 1, 2]);
    app.clear_logs();
    assert!(app.logs.is_empty());
    assert!(app.log_ids.is_empty());
}
