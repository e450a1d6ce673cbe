//! The client session's two task cores and the connection handshake. A
//! session binds one live connection to a sender task and a receiver task,
//! each owning one direction of the split stream. The decisions of both
//! loops — what to retry, what to drop, what to skip — live here as
//! functions over plain values; the caller performs the actual transport
//! reads, writes and delays and feeds the results in.

use vstd::prelude::*;
use vstd::string::StrSliceExecFns;
use vstd::utf8::encode_utf8;
use crate::codec::{decode_server_response, spec_decode_server};
use crate::event::{
    bytes_eq, ClientMessage, EventDBError, ServerResponse, ServerResponseView, WsFrame,
    WsFrameView,
};

verus! {

/// How establishing a verified connection can fail.
#[derive(Debug)]
pub enum ConnectionError {
    /// The stream closed before any acknowledgment arrived: hard failure,
    /// the connection must not be used.
    NoResponse,
    /// An acknowledgment arrived with the wrong payload: soft failure, the
    /// connection is still usable.
    InvalidResponse,
    /// The transport failed during send or receive: hard failure.
    IOError(String),
}

/// The fixed payload of the liveness probe.
pub open spec fn spec_echo_payload() -> Seq<u8> {
    encode_utf8("echo\n"@)
}

/// The probe payload as bytes, for the caller to put in a transport ping.
pub fn echo_payload() -> (p: Vec<u8>)
    ensures
        p@ == spec_echo_payload(),
{
    "echo\n".as_bytes_vec()
}

/// The payload of the first pong among the incoming frames, if any arrives
/// before the stream ends.
pub open spec fn spec_first_pong(frames: Seq<WsFrameView>) -> Option<Seq<u8>>
    decreases frames.len(),
{
    if frames.len() == 0 {
        None
    } else {
        match frames[0] {
            WsFrameView::Pong(p) => Some(p),
            _ => spec_first_pong(frames.drop_first()),
        }
    }
}

/// The connection verifier's judgment, after the caller has sent the probe:
/// scan what the stream delivers for the first pong. Its payload must be
/// exactly the probe's echo; a mismatched payload is a soft failure, and a
/// stream that ends without any pong is a hard one. No retries here: retry
/// policy belongs to whoever opened the connection.
#[verifier::loop_isolation(false)]
pub fn verify_conn(frames: &Vec<WsFrame>) -> (r: Result<(), ConnectionError>)
    ensures
        (spec_first_pong(frames.deep_view()) matches Some(p) ==> (if p == spec_echo_payload() {
            r is Ok
        } else {
            r matches Err(e) && e is InvalidResponse
        })),
        (spec_first_pong(frames.deep_view()) is None ==> (r matches Err(e) && e is NoResponse)),
{
    let expected = echo_payload();
    let ghost fv = frames.deep_view();
    proof {
        assert(fv.skip(0) =~= fv);
    }
    let mut i: usize = 0;
    while i < frames.len()
        invariant
            i <= frames@.len(),
            spec_first_pong(fv) == spec_first_pong(fv.skip(i as int)),
        decreases frames@.len() - i,
    {
        proof {
            assert(fv.skip(i as int)[0] == fv[i as int]);
            assert(fv.skip(i as int).drop_first() =~= fv.skip(i + 1));
            assert(fv[i as int] == frames@[i as int].deep_view());
        }
        match &frames[i] {
            WsFrame::Pong(data) => {
                if bytes_eq(data, &expected) {
                    return Ok(());
                } else {
                    return Err(ConnectionError::InvalidResponse);
                }
            },
            _ => {},
        }
        i = i + 1;
    }
    Err(ConnectionError::NoResponse)
}

/// How many times the sender tries one message before giving it up.
pub const SEND_TRY_LIMIT: u64 = 10;

/// One queued message's fate at the sender: whether it reached the wire,
/// and after how many write attempts.
#[derive(Clone, Copy, Debug, PartialEq, Eq, Structural)]
pub struct SendReport {
    pub delivered: bool,
    pub attempts: u64,
}

/// The per-attempt decision of the sender's retry loop: with this many
/// attempts already made, is the message tried again?
pub fn should_retry(attempts: u64) -> (r: bool)
    ensures
        r == (attempts < SEND_TRY_LIMIT),
{
    attempts < SEND_TRY_LIMIT
}

/// The sender task's protocol over one queue of requests. The transport is
/// summarized by one number per message: how many consecutive write
/// attempts would fail before one succeeds. Each message is tried until a
/// write succeeds, but at most the fixed limit of times; a message whose
/// writes keep failing is tried exactly that many times, then dropped, and
/// the queue moves on — one poisoned message never stalls the rest. Every
/// queued message is accounted for, in order.
pub fn start_sender(queue: &Vec<ClientMessage>, fail_counts: &Vec<u64>) -> (reports: Vec<
    SendReport,
>)
    requires
        fail_counts@.len() == queue@.len(),
    ensures
        reports@.len() == queue@.len(),
        forall|i: int|
            0 <= i < reports@.len() ==> (#[trigger] reports@[i]).delivered == (fail_counts@[i]
                < SEND_TRY_LIMIT),
        forall|i: int|
            0 <= i < reports@.len() && fail_counts@[i] < SEND_TRY_LIMIT
                ==> (#[trigger] reports@[i]).attempts == fail_counts@[i] + 1,
        forall|i: int|
            0 <= i < reports@.len() && fail_counts@[i] >= SEND_TRY_LIMIT
                ==> (#[trigger] reports@[i]).attempts == SEND_TRY_LIMIT,
{
    let mut reports: Vec<SendReport> = Vec::new();
    let mut i: usize = 0;
    while i < queue.len()
        invariant
            i <= queue@.len(),
            fail_counts@.len() == queue@.len(),
            reports@.len() == i,
            forall|k: int|
                0 <= k < i ==> (#[trigger] reports@[k]).delivered == (fail_counts@[k]
                    < SEND_TRY_LIMIT),
            forall|k: int|
                0 <= k < i && fail_counts@[k] < SEND_TRY_LIMIT ==> (#[trigger] reports@[k]).attempts
                    == fail_counts@[k] + 1,
            forall|k: int|
                0 <= k < i && fail_counts@[k] >= SEND_TRY_LIMIT
                    ==> (#[trigger] reports@[k]).attempts == SEND_TRY_LIMIT,
        decreases queue@.len() - i,
    {
        let fails = fail_counts[i];
        let mut attempts: u64 = 0;
        let mut delivered = false;
        while !delivered && attempts < SEND_TRY_LIMIT
            invariant
                attempts <= SEND_TRY_LIMIT,
                delivered ==> attempts == fails + 1 && fails < SEND_TRY_LIMIT,
                !delivered ==> attempts <= fails,
            decreases SEND_TRY_LIMIT - attempts,
        {
            attempts = attempts + 1;
            if attempts > fails {
                delivered = true;
            }
        }
        reports.push(SendReport { delivered, attempts });
        i = i + 1;
    }
    reports
}

/// Decode one binary frame from the server into a response, as the
/// receiver does for each arriving frame.
pub fn receive_event(data: &Vec<u8>) -> (r: Result<ServerResponse, EventDBError>)
    ensures
        (spec_decode_server(data@) matches Some(v) ==> (r matches Ok(resp) && resp@ == v)),
        (spec_decode_server(data@) is None ==> (r matches Err(e) && e is RmpDecode)),
{
    match decode_server_response(data) {
        Some(resp) => Ok(resp),
        None => Err(EventDBError::RmpDecode),
    }
}

/// What the receiver hands on for a given incoming frame sequence: each
/// binary frame's decoded response, in arrival order; control frames and
/// malformed frames are passed over.
pub open spec fn spec_received(frames: Seq<WsFrameView>) -> Seq<ServerResponseView>
    decreases frames.len(),
{
    if frames.len() == 0 {
        Seq::empty()
    } else {
        let front = spec_received(frames.drop_last());
        match frames.last() {
            WsFrameView::Binary(b) => match spec_decode_server(b) {
                Some(v) => front.push(v),
                None => front,
            },
            _ => front,
        }
    }
}

/// The receiver task's loop over one connection's incoming frames: decode
/// every binary frame and hand the responses on in arrival order. A frame
/// that does not decode is skipped, never fatal; the loop ends only with
/// the stream.
#[verifier::loop_isolation(false)]
pub fn start_receiver(frames: &Vec<WsFrame>) -> (out: Vec<ServerResponse>)
    ensures
        out.deep_view() == spec_received(frames.deep_view()),
{
    let ghost fv = frames.deep_view();
    let mut out: Vec<ServerResponse> = Vec::new();
    proof {
        assert(out.deep_view() =~= spec_received(fv.take(0)));
    }
    let mut i: usize = 0;
    while i < frames.len()
        invariant
            i <= frames@.len(),
            out.deep_view() == spec_received(fv.take(i as int)),
        decreases frames@.len() - i,
    {
        proof {
            assert(fv.take(i + 1).drop_last() =~= fv.take(i as int));
            assert(fv.take(i + 1).last() == fv[i as int]);
            assert(fv[i as int] == frames@[i as int].deep_view());
        }
        match &frames[i] {
            WsFrame::Binary(b) => {
                match decode_server_response(b) {
                    Some(resp) => {
                        let ghost prev = out.deep_view();
                        let ghost respv = resp@;
                        out.push(resp);
                        proof {
                            assert forall|k: int| 0 <= k < out@.len() implies out.deep_view()[k]
                                == prev.push(respv)[k] by {
                                assert(out.deep_view()[k] == out@[k].deep_view());
                            }
                            assert(out.deep_view() =~= prev.push(respv));
                        }
                    },
                    None => {},
                }
            },
            _ => {},
        }
        i = i + 1;
    }
    proof {
        assert(fv.take(frames@.len() as int) =~= fv);
    }
    out
}

} // verus!
