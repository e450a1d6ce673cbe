use bucface::codec::encode_server_response;
use bucface::event::{
    ClientMessage, EventDB, EventDBError, EventDBErrorSerde, ServerResponse, Timestamp, WsFrame,
};
use bucface::session::{
    echo_payload, receive_event, should_retry, start_sender, verify_conn, ConnectionError,
    SEND_TRY_LIMIT,
};

fn ping(n: u64) -> ClientMessage {
    ClientMessage::Ping(n.to_le_bytes().to_vec())
}

#[test]
fn failing_write_is_tried_ten_times_then_dropped_and_the_queue_moves_on() {
    // message 0 never sends: tried exactly the limit of times, dropped;
    // message 1 is still processed and delivered on its first attempt
    let queue = vec![ping(0), ping(1)];
    let fail_counts = vec![u64::MAX, 0];
    let reports = start_sender(&queue, &fail_counts);
    assert_eq!(reports.len(), 2);
    assert!(!reports[0].delivered);
    assert_eq!(reports[0].attempts, 10);
    assert!(reports[1].delivered);
    assert_eq!(reports[1].attempts, 1);
}

#[test]
fn sender_retries_until_the_write_succeeds() {
    let queue = vec![ping(0)];
    let reports = start_sender(&queue, &vec![3]);
    assert!(reports[0].delivered);
    assert_eq!(reports[0].attempts, 4);

    // nine failures still fit the limit; ten do not
    let reports = start_sender(&queue, &vec![9]);
    assert!(reports[0].delivered);
    assert_eq!(reports[0].attempts, 10);
    let reports = start_sender(&queue, &vec![10]);
    assert!(!reports[0].delivered);
    assert_eq!(reports[0].attempts, 10);
}

#[test]
fn retry_decision_is_bounded_by_the_limit() {
    assert!(should_retry(0));
    assert!(should_retry(SEND_TRY_LIMIT - 1));
    assert!(!should_retry(SEND_TRY_LIMIT));
}

#[test]
fn wrong_pong_payload_is_a_soft_failure() {
    let frames = vec![WsFrame::Pong(b"wrong".to_vec())];
    assert!(matches!(
        verify_conn(&frames),
        Err(ConnectionError::InvalidResponse)
    ));
}

#[test]
fn stream_end_without_a_pong_is_a_hard_failure() {
    assert!(matches!(
        verify_conn(&Vec::new()),
        Err(ConnectionError::NoResponse)
    ));
    let frames = vec![
        WsFrame::Text("hello".to_string()),
        WsFrame::Binary(vec![1, 2, 3]),
    ];
    assert!(matches!(
        verify_conn(&frames),
        Err(ConnectionError::NoResponse)
    ));
}

#[test]
fn matching_pong_verifies_the_connection() {
    let frames = vec![
        WsFrame::Text("banner".to_string()),
        WsFrame::Pong(echo_payload()),
    ];
    assert!(verify_conn(&frames).is_ok());
    assert_eq!(echo_payload(), b"echo\n".to_vec());
}

#[test]
fn only_the_first_pong_counts() {
    let frames = vec![
        WsFrame::Pong(b"bad".to_vec()),
        WsFrame::Pong(echo_payload()),
    ];
    assert!(matches!(
        verify_conn(&frames),
        Err(ConnectionError::InvalidResponse)
    ));
}

#[test]
fn receive_event_decodes_a_frame() {
    let resp = ServerResponse::Event(EventDB {
        _id: 1,
        author: "a".to_string(),
        machine: "m".to_string(),
        event: "e".to_string(),
        time: Timestamp { micros: 5 },
    });
    let bytes = encode_server_response(&resp);
    assert_eq!(receive_event(&bytes).unwrap(), resp);
    assert!(matches!(
        receive_event(&vec![250, 0]),
        Err(EventDBError::RmpDecode)
    ));
}

#[test]
fn receiver_decodes_binary_frames_and_skips_the_rest() {
    let a = ServerResponse::Pong(b"1".to_vec());
    let b = ServerResponse::Error(EventDBErrorSerde::NotFound);
    let frames = vec![
        WsFrame::Binary(encode_server_response(&a)),
        WsFrame::Text("chatter".to_string()),
        WsFrame::Binary(vec![9, 9, 9]),
        WsFrame::Ping(Vec::new()),
        WsFrame::Binary(encode_server_response(&b)),
    ];
    let out = bucface::session::start_receiver(&frames);
    assert_eq!(out, vec![a, b]);
}
