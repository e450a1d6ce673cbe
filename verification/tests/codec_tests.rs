use bucface::codec::{
    decode_client_message, decode_server_response, encode_client_message, encode_server_response,
};
use bucface::event::{
    ClientMessage, Event, EventDB, EventDBErrorSerde, ServerResponse, Timestamp,
};

fn sample_event() -> Event {
    Event {
        author: "alice".to_string(),
        machine: "m1".to_string(),
        event: "hello".to_string(),
        time: Timestamp { micros: 1_700_000_000_000_000 },
    }
}

fn sample_event_db(id: u64) -> EventDB {
    EventDB {
        _id: id,
        author: "alice".to_string(),
        machine: "m1".to_string(),
        event: "hello".to_string(),
        time: Timestamp { micros: 1_700_000_000_000_000 },
    }
}

#[test]
fn client_round_trip_new_event() {
    let m = ClientMessage::NewEvent(sample_event());
    let bytes = encode_client_message(&m);
    let back = decode_client_message(&bytes).expect("round trip must decode");
    assert_eq!(back, m);
}

#[test]
fn client_round_trip_new_event_non_ascii() {
    let m = ClientMessage::NewEvent(Event {
        author: "Zoë".to_string(),
        machine: "naïve-box".to_string(),
        event: "héllo wörld ✓".to_string(),
        time: Timestamp { micros: -42 },
    });
    let bytes = encode_client_message(&m);
    let back = decode_client_message(&bytes).expect("round trip must decode");
    assert_eq!(back, m);
}

#[test]
fn client_round_trip_empty_strings() {
    let m = ClientMessage::NewEvent(Event {
        author: String::new(),
        machine: String::new(),
        event: String::new(),
        time: Timestamp { micros: 0 },
    });
    let bytes = encode_client_message(&m);
    let back = decode_client_message(&bytes).expect("round trip must decode");
    assert_eq!(back, m);
}

#[test]
fn client_round_trip_get_event() {
    let m = ClientMessage::GetEvent(u64::MAX);
    let bytes = encode_client_message(&m);
    assert_eq!(decode_client_message(&bytes), Some(m));
}

#[test]
fn client_round_trip_get_since() {
    let m = ClientMessage::GetSince(7);
    let bytes = encode_client_message(&m);
    assert_eq!(decode_client_message(&bytes), Some(m));
}

#[test]
fn client_round_trip_ping() {
    let m = ClientMessage::Ping(vec![0, 1, 2, 255]);
    let bytes = encode_client_message(&m);
    assert_eq!(decode_client_message(&bytes), Some(m));

    let empty = ClientMessage::Ping(Vec::new());
    let bytes = encode_client_message(&empty);
    assert_eq!(decode_client_message(&bytes), Some(empty));
}

#[test]
fn server_round_trip_event() {
    let r = ServerResponse::Event(sample_event_db(3));
    let bytes = encode_server_response(&r);
    assert_eq!(decode_server_response(&bytes), Some(r));
}

#[test]
fn server_round_trip_errors() {
    for r in [
        ServerResponse::Error(EventDBErrorSerde::Db("table missing".to_string())),
        ServerResponse::Error(EventDBErrorSerde::NotFound),
        ServerResponse::Error(EventDBErrorSerde::Rmp),
    ] {
        let bytes = encode_server_response(&r);
        assert_eq!(decode_server_response(&bytes), Some(r));
    }
}

#[test]
fn server_round_trip_pong_and_close() {
    let pong = ServerResponse::Pong(b"echo\n".to_vec());
    let bytes = encode_server_response(&pong);
    assert_eq!(decode_server_response(&bytes), Some(pong));

    let close = ServerResponse::Close(b"bye".to_vec());
    let bytes = encode_server_response(&close);
    assert_eq!(decode_server_response(&bytes), Some(close));
}

#[test]
fn get_event_frame_has_exact_layout() {
    // one tag byte, then the id as eight little-endian bytes
    let bytes = encode_client_message(&ClientMessage::GetEvent(5));
    assert_eq!(bytes, vec![2, 5, 0, 0, 0, 0, 0, 0, 0]);
    let bytes = encode_client_message(&ClientMessage::GetSince(0x0102));
    assert_eq!(bytes, vec![3, 2, 1, 0, 0, 0, 0, 0, 0]);
}

#[test]
fn decode_rejects_malformed_frames() {
    // empty frame
    assert_eq!(decode_client_message(&Vec::new()), None);
    assert_eq!(decode_server_response(&Vec::new()), None);
    // unknown tag
    assert_eq!(decode_client_message(&vec![9, 0, 0]), None);
    assert_eq!(decode_server_response(&vec![0]), None);
    // truncated payload
    assert_eq!(decode_client_message(&vec![2, 1, 2, 3]), None);
    // trailing garbage after a well-formed payload
    let mut bytes = encode_client_message(&ClientMessage::GetEvent(5));
    bytes.push(0);
    assert_eq!(decode_client_message(&bytes), None);
}

#[test]
fn decode_rejects_invalid_utf8_text() {
    // a NewEvent frame whose author field holds bytes that are not UTF-8
    let mut bytes = vec![1];
    bytes.extend_from_slice(&4u64.to_le_bytes());
    bytes.extend_from_slice(&[0xff, 0xfe, 0x80, 0x81]);
    for _ in 0..2 {
        bytes.extend_from_slice(&0u64.to_le_bytes());
    }
    bytes.extend_from_slice(&0u64.to_le_bytes());
    assert_eq!(decode_client_message(&bytes), None);
}

#[test]
fn decode_accepts_hand_built_utf8_text() {
    // the same layout with valid UTF-8 decodes to the expected message;
    // this fails if the byte-to-text step did not really decode UTF-8
    let mut bytes = vec![1];
    bytes.extend_from_slice(&4u64.to_le_bytes());
    bytes.extend_from_slice("Zoë".as_bytes());
    bytes.extend_from_slice(&2u64.to_le_bytes());
    bytes.extend_from_slice(b"m1");
    bytes.extend_from_slice(&0u64.to_le_bytes());
    bytes.extend_from_slice(&7u64.to_le_bytes());
    let decoded = decode_client_message(&bytes).expect("valid frame must decode");
    match decoded {
        ClientMessage::NewEvent(ev) => {
            assert_eq!(ev.author, "Zoë");
            assert_eq!(ev.machine, "m1");
            assert_eq!(ev.event, "");
            assert_eq!(ev.time, Timestamp { micros: 7 });
        }
        other => panic!("wrong message shape: {other:?}"),
    }
}
