//! The broker's per-connection dispatch: each decoded client request is
//! turned into persistence operations on the shared store, and into the
//! responses that the fan-out task then broadcasts to every connection. The
//! dispatcher is one exhaustive switch over the closed request sum type.

use vstd::prelude::*;
use vstd::slice::slice_to_vec;
use vstd::string::StrSliceExecFns;
use vstd::utf8::encode_utf8;
use crate::codec::{decode_client_message, spec_decode_client};
use crate::event::{
    spec_event_db, ClientMessage, ClientMessageView, ErrorSerdeView, EventDB, EventDBErrorSerde,
    EventDBView, ServerResponse, ServerResponseView, WsFrame, WsFrameView,
};
use crate::store::EventStore;

verus! {

/// What the store holds after one binary client frame is handled: only a
/// well-formed `NewEvent` frame appends a record; every other frame leaves
/// the store as it was.
pub open spec fn spec_store_after(store: Seq<EventDBView>, b: Seq<u8>) -> Seq<EventDBView> {
    match spec_decode_client(b) {
        Some(ClientMessageView::NewEvent(e)) => store.push(spec_event_db(e, store.len() as u64)),
        _ => store,
    }
}

/// The responses one binary client frame produces, in order: the stored
/// record for a `NewEvent`; the requested record, or `NotFound`, for a
/// `GetEvent`; one response per matching record, or `NotFound`, for a
/// `GetSince`; an echo for a `Ping`; and a decode error for a malformed
/// frame.
pub open spec fn spec_responses(store: Seq<EventDBView>, b: Seq<u8>) -> Seq<ServerResponseView> {
    match spec_decode_client(b) {
        None => seq![ServerResponseView::Error(ErrorSerdeView::Rmp)],
        Some(m) => match m {
            ClientMessageView::NewEvent(e) => seq![
                ServerResponseView::Event(spec_event_db(e, store.len() as u64)),
            ],
            ClientMessageView::GetEvent(id) => if (id as int) < store.len() {
                seq![ServerResponseView::Event(store[id as int])]
            } else {
                seq![ServerResponseView::Error(ErrorSerdeView::NotFound)]
            },
            ClientMessageView::GetSince(id) => if (id as int) < store.len() {
                store.skip(id as int).map(|k: int, e: EventDBView| ServerResponseView::Event(e))
            } else {
                seq![ServerResponseView::Error(ErrorSerdeView::NotFound)]
            },
            ClientMessageView::Ping(p) => seq![ServerResponseView::Pong(p)],
        },
    }
}

/// Handle one binary frame holding an encoded [`ClientMessage`]: decode it,
/// dispatch on the request, update the store, and hand back the responses
/// to broadcast. A malformed frame costs one error response and nothing
/// else; it never stops the caller's loop.
pub fn handle_client_message(store: &mut EventStore, message: &Vec<u8>) -> (r: Vec<ServerResponse>)
    requires
        old(store).wf(),
    ensures
        final(store).wf(),
        final(store)@ == spec_store_after(old(store)@, message@),
        r.deep_view() == spec_responses(old(store)@, message@),
{
    let mut out: Vec<ServerResponse> = Vec::new();
    match decode_client_message(message) {
        None => {
            out.push(ServerResponse::Error(EventDBErrorSerde::Rmp));
            proof {
                assert(out.deep_view() =~= spec_responses(old(store)@, message@));
            }
        },
        Some(msg) => match msg {
            ClientMessage::NewEvent(e) => {
                match store.insert_event(e) {
                    Ok(rec) => {
                        out.push(ServerResponse::Event(rec));
                        proof {
                            assert(out.deep_view() =~= spec_responses(old(store)@, message@));
                        }
                    },
                    Err(_) => {
                        out = vstd::pervasive::unreached();
                    },
                }
            },
            ClientMessage::GetEvent(id) => {
                match store.get_event(id) {
                    Ok(rec) => {
                        out.push(ServerResponse::Event(rec));
                        proof {
                            assert(out.deep_view() =~= spec_responses(old(store)@, message@));
                        }
                    },
                    Err(_) => {
                        out.push(ServerResponse::Error(EventDBErrorSerde::NotFound));
                        proof {
                            assert(out.deep_view() =~= spec_responses(old(store)@, message@));
                        }
                    },
                }
            },
            ClientMessage::GetSince(id) => {
                match store.get_events_since(id) {
                    Ok(records) => {
                        let ghost rv = records.deep_view();
                        let mut i: usize = 0;
                        while i < records.len()
                            invariant
                                i <= records@.len(),
                                out@.len() == i,
                                forall|k: int|
                                    0 <= k < i ==> #[trigger] out@[k] == ServerResponse::Event(
                                        records@[k],
                                    ),
                            decreases records@.len() - i,
                        {
                            let rec = &records[i];
                            out.push(ServerResponse::Event(rec.clone()));
                            i = i + 1;
                        }
                        proof {
                            let m = rv.map(|k: int, e: EventDBView| ServerResponseView::Event(e));
                            assert forall|k: int| 0 <= k < out@.len() implies out.deep_view()[k]
                                == m[k] by {
                                assert(out@[k] == ServerResponse::Event(records@[k]));
                                assert(out.deep_view()[k] == out@[k].deep_view());
                            }
                            assert(out.deep_view() =~= m);
                        }
                    },
                    Err(_) => {
                        out.push(ServerResponse::Error(EventDBErrorSerde::NotFound));
                        proof {
                            assert(out.deep_view() =~= spec_responses(old(store)@, message@));
                        }
                    },
                }
            },
            ClientMessage::Ping(p) => {
                out.push(ServerResponse::Pong(p));
                proof {
                    assert(out.deep_view() =~= spec_responses(old(store)@, message@));
                }
            },
        },
    }
    out
}

/// The reason the broker reports when a client asks to close.
pub open spec fn spec_close_reason() -> Seq<u8> {
    encode_utf8("Received close request"@)
}

/// Handle one transport frame of a connection's reader loop: a ping is
/// echoed as an application-level pong, a close is acknowledged and ends
/// the loop, a binary frame is dispatched as a client message, and the
/// rest is ignored. The flag says whether the loop is over.
pub fn handle_frame(store: &mut EventStore, frame: &WsFrame) -> (r: (Vec<ServerResponse>, bool))
    requires
        old(store).wf(),
    ensures
        final(store).wf(),
        (frame@ matches WsFrameView::Binary(b) ==> final(store)@ == spec_store_after(
            old(store)@,
            b,
        ) && r.0.deep_view() == spec_responses(old(store)@, b) && r.1 == false),
        (frame@ matches WsFrameView::Ping(p) ==> final(store)@ == old(store)@ && r.0.deep_view()
            == seq![ServerResponseView::Pong(p)] && r.1 == false),
        (frame@ matches WsFrameView::Close(p) ==> final(store)@ == old(store)@ && r.0.deep_view()
            == seq![ServerResponseView::Close(spec_close_reason())] && r.1 == true),
        (frame@ matches WsFrameView::Pong(p) ==> final(store)@ == old(store)@ && r.0@.len() == 0
            && r.1 == false),
        (frame@ matches WsFrameView::Text(t) ==> final(store)@ == old(store)@ && r.0@.len() == 0
            && r.1 == false),
{
    let mut out: Vec<ServerResponse> = Vec::new();
    match frame {
        WsFrame::Ping(p) => {
            out.push(ServerResponse::Pong(slice_to_vec(p.as_slice())));
            proof {
                assert(out.deep_view() =~= seq![ServerResponseView::Pong(p@)]);
            }
            (out, false)
        },
        WsFrame::Pong(_) => (out, false),
        WsFrame::Close(_) => {
            out.push(ServerResponse::Close("Received close request".as_bytes_vec()));
            proof {
                assert(out.deep_view() =~= seq![
                    ServerResponseView::Close(spec_close_reason()),
                ]);
            }
            (out, true)
        },
        WsFrame::Text(_) => (out, false),
        WsFrame::Binary(b) => {
            let responses = handle_client_message(store, b);
            (responses, false)
        },
    }
}

} // verus!
