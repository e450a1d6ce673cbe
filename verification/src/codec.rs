//! The wire codec: stateless, pure translation between the message sum types
//! and binary frames. One self-describing schema is shared by both ends: a
//! one-byte variant tag, integers as eight little-endian bytes, and byte or
//! text fields as a length prefix followed by the raw (for text: UTF-8)
//! bytes. Decoding a malformed frame reports failure; it never panics.

use vstd::prelude::*;
use vstd::bytes::{
    lemma_auto_spec_u64_to_from_le_bytes, spec_u64_from_le_bytes, spec_u64_to_le_bytes,
    u64_from_le_bytes, u64_to_le_bytes,
};
use vstd::slice::{slice_subrange, slice_to_vec};
use vstd::string::StrSliceExecFns;
use vstd::utf8::{decode_utf8, encode_utf8, valid_utf8};
use crate::event::{
    ClientMessage, ClientMessageView, ErrorSerdeView, Event, EventDB, EventDBErrorSerde,
    EventDBView, EventView, ServerResponse, ServerResponseView, Timestamp,
};

verus! {

// ---------------------------------------------------------------------------
// Encoding, at the mathematical level.
// ---------------------------------------------------------------------------
/// An unsigned integer as eight little-endian bytes.
pub open spec fn enc_u64(x: u64) -> Seq<u8> {
    spec_u64_to_le_bytes(x)
}

/// A byte string: its length, then the bytes themselves.
pub open spec fn enc_bytes(b: Seq<u8>) -> Seq<u8> {
    enc_u64(b.len() as u64) + b
}

/// A text field: its UTF-8 bytes as a length-prefixed byte string.
pub open spec fn enc_str(s: Seq<char>) -> Seq<u8> {
    enc_bytes(encode_utf8(s))
}

/// An event: the three text fields, then the timestamp.
pub open spec fn enc_event(e: EventView) -> Seq<u8> {
    enc_str(e.author) + enc_str(e.machine) + enc_str(e.event) + enc_u64(e.time as u64)
}

/// A persisted event: the sequence id, then the event fields.
pub open spec fn enc_event_db(e: EventDBView) -> Seq<u8> {
    enc_u64(e.id) + enc_str(e.author) + enc_str(e.machine) + enc_str(e.event) + enc_u64(
        e.time as u64,
    )
}

/// An error: a kind tag, plus the detail text for a store failure.
pub open spec fn enc_error(e: ErrorSerdeView) -> Seq<u8> {
    match e {
        ErrorSerdeView::Db(s) => seq![1u8] + enc_str(s),
        ErrorSerdeView::NotFound => seq![2u8],
        ErrorSerdeView::Rmp => seq![3u8],
    }
}

/// A client request frame: a variant tag, then the payload.
pub open spec fn spec_encode_client(m: ClientMessageView) -> Seq<u8> {
    match m {
        ClientMessageView::NewEvent(e) => seq![1u8] + enc_event(e),
        ClientMessageView::GetEvent(id) => seq![2u8] + enc_u64(id),
        ClientMessageView::GetSince(id) => seq![3u8] + enc_u64(id),
        ClientMessageView::Ping(p) => seq![4u8] + enc_bytes(p),
    }
}

/// A server response frame: a variant tag, then the payload.
pub open spec fn spec_encode_server(r: ServerResponseView) -> Seq<u8> {
    match r {
        ServerResponseView::Event(e) => seq![1u8] + enc_event_db(e),
        ServerResponseView::Error(e) => seq![2u8] + enc_error(e),
        ServerResponseView::Pong(p) => seq![3u8] + enc_bytes(p),
        ServerResponseView::Close(p) => seq![4u8] + enc_bytes(p),
    }
}

// ---------------------------------------------------------------------------
// Decoding, at the mathematical level: each piece consumes a prefix and
// hands back the rest.
// ---------------------------------------------------------------------------
/// Read eight little-endian bytes as an unsigned integer.
pub open spec fn dec_u64(b: Seq<u8>) -> Option<(u64, Seq<u8>)> {
    if b.len() >= 8 {
        Some((spec_u64_from_le_bytes(b.take(8)), b.skip(8)))
    } else {
        None
    }
}

/// Read a length-prefixed byte string.
pub open spec fn dec_bytes(b: Seq<u8>) -> Option<(Seq<u8>, Seq<u8>)> {
    match dec_u64(b) {
        Some((n, rest)) => if rest.len() >= n as nat {
            Some((rest.take(n as int), rest.skip(n as int)))
        } else {
            None
        },
        None => None,
    }
}

/// Read a length-prefixed byte string that must be valid UTF-8.
pub open spec fn dec_str(b: Seq<u8>) -> Option<(Seq<char>, Seq<u8>)> {
    match dec_bytes(b) {
        Some((bs, rest)) => if valid_utf8(bs) {
            Some((decode_utf8(bs), rest))
        } else {
            None
        },
        None => None,
    }
}

/// Read an event: three text fields and a timestamp.
pub open spec fn dec_event(b: Seq<u8>) -> Option<(EventView, Seq<u8>)> {
    match dec_str(b) {
        Some((author, b1)) => match dec_str(b1) {
            Some((machine, b2)) => match dec_str(b2) {
                Some((body, b3)) => match dec_u64(b3) {
                    Some((t, b4)) => Some(
                        (
                            EventView {
                                author: author,
                                machine: machine,
                                event: body,
                                time: t as i64,
                            },
                            b4,
                        ),
                    ),
                    None => None,
                },
                None => None,
            },
            None => None,
        },
        None => None,
    }
}

/// Read a persisted event: a sequence id, then the event fields.
pub open spec fn dec_event_db(b: Seq<u8>) -> Option<(EventDBView, Seq<u8>)> {
    match dec_u64(b) {
        Some((id, b0)) => match dec_event(b0) {
            Some((e, b1)) => Some(
                (
                    EventDBView {
                        id: id,
                        author: e.author,
                        machine: e.machine,
                        event: e.event,
                        time: e.time,
                    },
                    b1,
                ),
            ),
            None => None,
        },
        None => None,
    }
}

/// Read an error: a kind tag, plus the detail text for a store failure.
pub open spec fn dec_error(b: Seq<u8>) -> Option<(ErrorSerdeView, Seq<u8>)> {
    if b.len() == 0 {
        None
    } else {
        let rest = b.skip(1);
        if b[0] == 1u8 {
            match dec_str(rest) {
                Some((s, r)) => Some((ErrorSerdeView::Db(s), r)),
                None => None,
            }
        } else if b[0] == 2u8 {
            Some((ErrorSerdeView::NotFound, rest))
        } else if b[0] == 3u8 {
            Some((ErrorSerdeView::Rmp, rest))
        } else {
            None
        }
    }
}

/// What a whole client request frame decodes to, if anything. The payload
/// must fill the frame exactly; trailing bytes make the frame malformed.
pub open spec fn spec_decode_client(b: Seq<u8>) -> Option<ClientMessageView> {
    if b.len() == 0 {
        None
    } else {
        let rest = b.skip(1);
        if b[0] == 1u8 {
            match dec_event(rest) {
                Some((e, r)) => if r.len() == 0 {
                    Some(ClientMessageView::NewEvent(e))
                } else {
                    None
                },
                None => None,
            }
        } else if b[0] == 2u8 {
            match dec_u64(rest) {
                Some((id, r)) => if r.len() == 0 {
                    Some(ClientMessageView::GetEvent(id))
                } else {
                    None
                },
                None => None,
            }
        } else if b[0] == 3u8 {
            match dec_u64(rest) {
                Some((id, r)) => if r.len() == 0 {
                    Some(ClientMessageView::GetSince(id))
                } else {
                    None
                },
                None => None,
            }
        } else if b[0] == 4u8 {
            match dec_bytes(rest) {
                Some((p, r)) => if r.len() == 0 {
                    Some(ClientMessageView::Ping(p))
                } else {
                    None
                },
                None => None,
            }
        } else {
            None
        }
    }
}

/// What a whole server response frame decodes to, if anything.
pub open spec fn spec_decode_server(b: Seq<u8>) -> Option<ServerResponseView> {
    if b.len() == 0 {
        None
    } else {
        let rest = b.skip(1);
        if b[0] == 1u8 {
            match dec_event_db(rest) {
                Some((e, r)) => if r.len() == 0 {
                    Some(ServerResponseView::Event(e))
                } else {
                    None
                },
                None => None,
            }
        } else if b[0] == 2u8 {
            match dec_error(rest) {
                Some((e, r)) => if r.len() == 0 {
                    Some(ServerResponseView::Error(e))
                } else {
                    None
                },
                None => None,
            }
        } else if b[0] == 3u8 {
            match dec_bytes(rest) {
                Some((p, r)) => if r.len() == 0 {
                    Some(ServerResponseView::Pong(p))
                } else {
                    None
                },
                None => None,
            }
        } else if b[0] == 4u8 {
            match dec_bytes(rest) {
                Some((p, r)) => if r.len() == 0 {
                    Some(ServerResponseView::Close(p))
                } else {
                    None
                },
                None => None,
            }
        } else {
            None
        }
    }
}

// ---------------------------------------------------------------------------
// Well-formedness: every length that the schema writes must fit its eight
// byte prefix. Every value built by executable code satisfies these.
// ---------------------------------------------------------------------------
/// The length fits the eight-byte prefix of the schema.
pub open spec fn fits_frame(b: Seq<u8>) -> bool {
    b.len() <= u64::MAX
}

/// Every text field of the event fits the schema.
pub open spec fn wf_event_view(e: EventView) -> bool {
    fits_frame(encode_utf8(e.author)) && fits_frame(encode_utf8(e.machine)) && fits_frame(
        encode_utf8(e.event),
    )
}

/// Every text field of the persisted event fits the schema.
pub open spec fn wf_event_db_view(e: EventDBView) -> bool {
    fits_frame(encode_utf8(e.author)) && fits_frame(encode_utf8(e.machine)) && fits_frame(
        encode_utf8(e.event),
    )
}

/// Every field of the request fits the schema.
pub open spec fn wf_client_view(m: ClientMessageView) -> bool {
    match m {
        ClientMessageView::NewEvent(e) => wf_event_view(e),
        ClientMessageView::GetEvent(_) => true,
        ClientMessageView::GetSince(_) => true,
        ClientMessageView::Ping(p) => fits_frame(p),
    }
}

/// Every field of the response fits the schema.
pub open spec fn wf_server_view(r: ServerResponseView) -> bool {
    match r {
        ServerResponseView::Event(e) => wf_event_db_view(e),
        ServerResponseView::Error(e) => match e {
            ErrorSerdeView::Db(s) => fits_frame(encode_utf8(s)),
            ErrorSerdeView::NotFound => true,
            ErrorSerdeView::Rmp => true,
        },
        ServerResponseView::Pong(p) => fits_frame(p),
        ServerResponseView::Close(p) => fits_frame(p),
    }
}

// ---------------------------------------------------------------------------
// Round trip: decoding an encoded value gives the value back.
// ---------------------------------------------------------------------------
proof fn lemma_dec_u64_prefix(x: u64, rest: Seq<u8>)
    ensures
        dec_u64(enc_u64(x) + rest) == Some((x, rest)),
{
    lemma_auto_spec_u64_to_from_le_bytes();
    let e = enc_u64(x);
    assert((e + rest).take(8) =~= e);
    assert((e + rest).skip(8) =~= rest);
}

proof fn lemma_dec_bytes_prefix(b: Seq<u8>, rest: Seq<u8>)
    requires
        fits_frame(b),
    ensures
        dec_bytes(enc_bytes(b) + rest) == Some((b, rest)),
{
    let n = b.len() as u64;
    assert(enc_bytes(b) + rest =~= enc_u64(n) + (b + rest));
    lemma_dec_u64_prefix(n, b + rest);
    assert((b + rest).take(n as int) =~= b);
    assert((b + rest).skip(n as int) =~= rest);
}

proof fn lemma_dec_str_prefix(s: Seq<char>, rest: Seq<u8>)
    requires
        fits_frame(encode_utf8(s)),
    ensures
        dec_str(enc_str(s) + rest) == Some((s, rest)),
{
    broadcast use vstd::utf8::encode_utf8_valid_utf8, vstd::utf8::encode_utf8_decode_utf8;

    lemma_dec_bytes_prefix(encode_utf8(s), rest);
}

proof fn lemma_dec_event_prefix(e: EventView, rest: Seq<u8>)
    requires
        wf_event_view(e),
    ensures
        dec_event(enc_event(e) + rest) == Some((e, rest)),
{
    let a = enc_str(e.author);
    let m = enc_str(e.machine);
    let b = enc_str(e.event);
    let t = enc_u64(e.time as u64);
    assert(enc_event(e) + rest =~= a + (m + (b + (t + rest))));
    lemma_dec_str_prefix(e.author, m + (b + (t + rest)));
    lemma_dec_str_prefix(e.machine, b + (t + rest));
    lemma_dec_str_prefix(e.event, t + rest);
    lemma_dec_u64_prefix(e.time as u64, rest);
    let tt = e.time;
    assert(((tt as u64) as i64) == tt) by (bit_vector);
    assert(dec_event(enc_event(e) + rest) matches Some(pr) && pr.0 =~= e && pr.1 == rest);
}

proof fn lemma_dec_event_db_prefix(e: EventDBView, rest: Seq<u8>)
    requires
        wf_event_db_view(e),
    ensures
        dec_event_db(enc_event_db(e) + rest) == Some((e, rest)),
{
    let ev = EventView { author: e.author, machine: e.machine, event: e.event, time: e.time };
    assert(enc_event_db(e) + rest =~= enc_u64(e.id) + (enc_event(ev) + rest));
    lemma_dec_u64_prefix(e.id, enc_event(ev) + rest);
    lemma_dec_event_prefix(ev, rest);
    assert(dec_event_db(enc_event_db(e) + rest) matches Some(pr) && pr.0 =~= e && pr.1 == rest);
}

proof fn lemma_dec_error_prefix(e: ErrorSerdeView, rest: Seq<u8>)
    requires
        (e matches ErrorSerdeView::Db(s) ==> fits_frame(encode_utf8(s))),
    ensures
        dec_error(enc_error(e) + rest) == Some((e, rest)),
{
    match e {
        ErrorSerdeView::Db(s) => {
            assert(enc_error(e) + rest =~= seq![1u8] + (enc_str(s) + rest));
            assert((seq![1u8] + (enc_str(s) + rest)).skip(1) =~= enc_str(s) + rest);
            lemma_dec_str_prefix(s, rest);
        },
        ErrorSerdeView::NotFound => {
            assert((enc_error(e) + rest).skip(1) =~= rest);
        },
        ErrorSerdeView::Rmp => {
            assert((enc_error(e) + rest).skip(1) =~= rest);
        },
    }
}

/// Round trip for client request frames: decoding an encoded request gives
/// exactly the request back.
pub proof fn lemma_client_message_round_trip(m: ClientMessageView)
    requires
        wf_client_view(m),
    ensures
        spec_decode_client(spec_encode_client(m)) == Some(m),
{
    let b = spec_encode_client(m);
    match m {
        ClientMessageView::NewEvent(e) => {
            assert(b.skip(1) =~= enc_event(e) + Seq::<u8>::empty());
            lemma_dec_event_prefix(e, Seq::<u8>::empty());
        },
        ClientMessageView::GetEvent(id) => {
            assert(b.skip(1) =~= enc_u64(id) + Seq::<u8>::empty());
            lemma_dec_u64_prefix(id, Seq::<u8>::empty());
        },
        ClientMessageView::GetSince(id) => {
            assert(b.skip(1) =~= enc_u64(id) + Seq::<u8>::empty());
            lemma_dec_u64_prefix(id, Seq::<u8>::empty());
        },
        ClientMessageView::Ping(p) => {
            assert(b.skip(1) =~= enc_bytes(p) + Seq::<u8>::empty());
            lemma_dec_bytes_prefix(p, Seq::<u8>::empty());
        },
    }
}

/// Round trip for server response frames: decoding an encoded response gives
/// exactly the response back.
pub proof fn lemma_server_response_round_trip(r: ServerResponseView)
    requires
        wf_server_view(r),
    ensures
        spec_decode_server(spec_encode_server(r)) == Some(r),
{
    let b = spec_encode_server(r);
    match r {
        ServerResponseView::Event(e) => {
            assert(b.skip(1) =~= enc_event_db(e) + Seq::<u8>::empty());
            lemma_dec_event_db_prefix(e, Seq::<u8>::empty());
        },
        ServerResponseView::Error(e) => {
            assert(b.skip(1) =~= enc_error(e) + Seq::<u8>::empty());
            lemma_dec_error_prefix(e, Seq::<u8>::empty());
        },
        ServerResponseView::Pong(p) => {
            assert(b.skip(1) =~= enc_bytes(p) + Seq::<u8>::empty());
            lemma_dec_bytes_prefix(p, Seq::<u8>::empty());
        },
        ServerResponseView::Close(p) => {
            assert(b.skip(1) =~= enc_bytes(p) + Seq::<u8>::empty());
            lemma_dec_bytes_prefix(p, Seq::<u8>::empty());
        },
    }
}

// ---------------------------------------------------------------------------
// Executable encoding.
// ---------------------------------------------------------------------------
fn put_u64(out: &mut Vec<u8>, x: u64)
    ensures
        final(out)@ == old(out)@ + enc_u64(x),
{
    let mut b = u64_to_le_bytes(x);
    out.append(&mut b);
}

fn put_bytes(out: &mut Vec<u8>, b: &Vec<u8>)
    ensures
        final(out)@ == old(out)@ + enc_bytes(b@),
{
    let ghost out0 = out@;
    put_u64(out, b.len() as u64);
    proof {
        assert(out@ =~= out0 + enc_u64(b@.len() as u64) + b@.take(0));
    }
    let mut i: usize = 0;
    while i < b.len()
        invariant
            i <= b@.len(),
            out@ == out0 + enc_u64(b@.len() as u64) + b@.take(i as int),
        decreases b@.len() - i,
    {
        let byte = b[i];
        out.push(byte);
        proof {
            assert(out@ =~= out0 + enc_u64(b@.len() as u64) + b@.take(i + 1));
        }
        i = i + 1;
    }
    proof {
        assert(b@.take(b@.len() as int) =~= b@);
        assert(out@ =~= out0 + enc_bytes(b@));
    }
}

fn put_str(out: &mut Vec<u8>, s: &String)
    ensures
        final(out)@ == old(out)@ + enc_str(s@),
{
    let bv = s.as_str().as_bytes_vec();
    put_bytes(out, &bv);
}

fn put_event(out: &mut Vec<u8>, e: &Event)
    ensures
        final(out)@ == old(out)@ + enc_event(e@),
{
    let ghost out0 = out@;
    put_str(out, &e.author);
    put_str(out, &e.machine);
    put_str(out, &e.event);
    put_u64(out, e.time.micros as u64);
    proof {
        assert(out@ =~= out0 + enc_event(e@));
    }
}

fn put_event_db(out: &mut Vec<u8>, e: &EventDB)
    ensures
        final(out)@ == old(out)@ + enc_event_db(e@),
{
    let ghost out0 = out@;
    put_u64(out, e._id);
    put_str(out, &e.author);
    put_str(out, &e.machine);
    put_str(out, &e.event);
    put_u64(out, e.time.micros as u64);
    proof {
        assert(out@ =~= out0 + enc_event_db(e@));
    }
}

fn put_error(out: &mut Vec<u8>, e: &EventDBErrorSerde)
    ensures
        final(out)@ == old(out)@ + enc_error(e@),
{
    let ghost out0 = out@;
    match e {
        EventDBErrorSerde::Db(s) => {
            out.push(1u8);
            put_str(out, s);
        },
        EventDBErrorSerde::NotFound => {
            out.push(2u8);
        },
        EventDBErrorSerde::Rmp => {
            out.push(3u8);
        },
    }
    proof {
        assert(out@ =~= out0 + enc_error(e@));
    }
}

/// Turn a client request into the one frame that carries it on the wire.
pub fn encode_client_message(m: &ClientMessage) -> (r: Vec<u8>)
    ensures
        r@ == spec_encode_client(m@),
{
    let mut out: Vec<u8> = Vec::new();
    match m {
        ClientMessage::NewEvent(e) => {
            out.push(1u8);
            put_event(&mut out, e);
        },
        ClientMessage::GetEvent(id) => {
            out.push(2u8);
            put_u64(&mut out, *id);
        },
        ClientMessage::GetSince(id) => {
            out.push(3u8);
            put_u64(&mut out, *id);
        },
        ClientMessage::Ping(p) => {
            out.push(4u8);
            put_bytes(&mut out, p);
        },
    }
    proof {
        assert(out@ =~= spec_encode_client(m@));
    }
    out
}

/// Turn a server response into the one frame that carries it on the wire.
pub fn encode_server_response(r: &ServerResponse) -> (out: Vec<u8>)
    ensures
        out@ == spec_encode_server(r@),
{
    let mut out: Vec<u8> = Vec::new();
    match r {
        ServerResponse::Event(e) => {
            out.push(1u8);
            put_event_db(&mut out, e);
        },
        ServerResponse::Error(e) => {
            out.push(2u8);
            put_error(&mut out, e);
        },
        ServerResponse::Pong(p) => {
            out.push(3u8);
            put_bytes(&mut out, p);
        },
        ServerResponse::Close(p) => {
            out.push(4u8);
            put_bytes(&mut out, p);
        },
    }
    proof {
        assert(out@ =~= spec_encode_server(r@));
    }
    out
}

// ---------------------------------------------------------------------------
// Executable decoding: a cursor walks the frame; each step mirrors one of
// the spec-level readers on the bytes not yet consumed.
// ---------------------------------------------------------------------------
/// Relies on `String::from_utf8`: it succeeds exactly on valid UTF-8 input
/// and decodes the bytes to the characters they encode.
#[verifier::external_body]
fn bytes_to_string(v: Vec<u8>) -> (r: Option<String>)
    ensures
        r matches Some(s) ==> valid_utf8(v@) && s@ == decode_utf8(v@),
        r is None ==> !valid_utf8(v@),
{
    match String::from_utf8(v) {
        Ok(s) => Some(s),
        Err(_) => None,
    }
}

fn take_u64(data: &[u8], pos: usize) -> (r: Option<(u64, usize)>)
    requires
        pos <= data@.len(),
    ensures
        ({
            let s = data@.skip(pos as int);
            match dec_u64(s) {
                Some(d) => r matches Some(pr) && pr.0 == d.0 && pos <= pr.1 <= data@.len()
                    && data@.skip(pr.1 as int) == d.1,
                None => r is None,
            }
        }),
{
    if data.len() - pos >= 8 {
        let sl = slice_subrange(data, pos, pos + 8);
        let x = u64_from_le_bytes(sl);
        proof {
            assert(data@.skip(pos as int).take(8) =~= data@.subrange(pos as int, pos as int + 8));
            assert(data@.skip(pos as int + 8) =~= data@.skip(pos as int).skip(8));
        }
        Some((x, pos + 8))
    } else {
        None
    }
}

fn take_bytes(data: &[u8], pos: usize) -> (r: Option<(Vec<u8>, usize)>)
    requires
        pos <= data@.len(),
    ensures
        ({
            let s = data@.skip(pos as int);
            match dec_bytes(s) {
                Some(d) => r matches Some(pr) && pr.0@ == d.0 && pos <= pr.1 <= data@.len()
                    && data@.skip(pr.1 as int) == d.1,
                None => r is None,
            }
        }),
{
    match take_u64(data, pos) {
        Some((n, p1)) => {
            if n <= (data.len() - p1) as u64 {
                let n_us = n as usize;
                let sl = slice_subrange(data, p1, p1 + n_us);
                let v = slice_to_vec(sl);
                proof {
                    assert(data@.skip(p1 as int).take(n as int) =~= data@.subrange(
                        p1 as int,
                        p1 as int + n as int,
                    ));
                    assert(data@.skip(p1 as int + n as int) =~= data@.skip(p1 as int).skip(
                        n as int,
                    ));
                }
                Some((v, p1 + n_us))
            } else {
                None
            }
        },
        None => None,
    }
}

fn take_str(data: &[u8], pos: usize) -> (r: Option<(String, usize)>)
    requires
        pos <= data@.len(),
    ensures
        ({
            let s = data@.skip(pos as int);
            match dec_str(s) {
                Some(d) => r matches Some(pr) && pr.0@ == d.0 && pos <= pr.1 <= data@.len()
                    && data@.skip(pr.1 as int) == d.1,
                None => r is None,
            }
        }),
{
    match take_bytes(data, pos) {
        Some((bv, p1)) => {
            let ghost bvv = bv@;
            match bytes_to_string(bv) {
                Some(s) => Some((s, p1)),
                None => None,
            }
        },
        None => None,
    }
}

fn take_event(data: &[u8], pos: usize) -> (r: Option<(Event, usize)>)
    requires
        pos <= data@.len(),
    ensures
        ({
            let s = data@.skip(pos as int);
            match dec_event(s) {
                Some(d) => r matches Some(pr) && pr.0@ == d.0 && pos <= pr.1 <= data@.len()
                    && data@.skip(pr.1 as int) == d.1,
                None => r is None,
            }
        }),
{
    match take_str(data, pos) {
        Some((author, p1)) => match take_str(data, p1) {
            Some((machine, p2)) => match take_str(data, p2) {
                Some((body, p3)) => match take_u64(data, p3) {
                    Some((t, p4)) => {
                        let ev = Event {
                            author,
                            machine,
                            event: body,
                            time: Timestamp { micros: t as i64 },
                        };
                        proof {
                            let d = dec_event(data@.skip(pos as int));
                            assert(ev@ =~= d->Some_0.0);
                        }
                        Some((ev, p4))
                    },
                    None => None,
                },
                None => None,
            },
            None => None,
        },
        None => None,
    }
}

fn take_event_db(data: &[u8], pos: usize) -> (r: Option<(EventDB, usize)>)
    requires
        pos <= data@.len(),
    ensures
        ({
            let s = data@.skip(pos as int);
            match dec_event_db(s) {
                Some(d) => r matches Some(pr) && pr.0@ == d.0 && pos <= pr.1 <= data@.len()
                    && data@.skip(pr.1 as int) == d.1,
                None => r is None,
            }
        }),
{
    match take_u64(data, pos) {
        Some((id, p0)) => match take_event(data, p0) {
            Some((e, p1)) => {
                let rec = EventDB {
                    _id: id,
                    author: e.author,
                    machine: e.machine,
                    event: e.event,
                    time: e.time,
                };
                proof {
                    let d = dec_event_db(data@.skip(pos as int));
                    assert(rec@ =~= d->Some_0.0);
                }
                Some((rec, p1))
            },
            None => None,
        },
        None => None,
    }
}

fn take_error(data: &[u8], pos: usize) -> (r: Option<(EventDBErrorSerde, usize)>)
    requires
        pos <= data@.len(),
    ensures
        ({
            let s = data@.skip(pos as int);
            match dec_error(s) {
                Some(d) => r matches Some(pr) && pr.0@ == d.0 && pos <= pr.1 <= data@.len()
                    && data@.skip(pr.1 as int) == d.1,
                None => r is None,
            }
        }),
{
    if data.len() - pos < 1 {
        return None;
    }
    let tag = *vstd::slice::slice_index_get(data, pos);
    proof {
        assert(data@.skip(pos as int + 1) =~= data@.skip(pos as int).skip(1));
    }
    if tag == 1u8 {
        match take_str(data, pos + 1) {
            Some((s, p1)) => Some((EventDBErrorSerde::Db(s), p1)),
            None => None,
        }
    } else if tag == 2u8 {
        Some((EventDBErrorSerde::NotFound, pos + 1))
    } else if tag == 3u8 {
        Some((EventDBErrorSerde::Rmp, pos + 1))
    } else {
        None
    }
}

/// Decode one client request frame; malformed frames give back nothing.
pub fn decode_client_message(data: &Vec<u8>) -> (r: Option<ClientMessage>)
    ensures
        r matches Some(m) ==> spec_decode_client(data@) == Some(m@),
        r is None ==> spec_decode_client(data@) is None,
{
    let sl = data.as_slice();
    if sl.len() == 0 {
        return None;
    }
    let tag = *vstd::slice::slice_index_get(sl, 0);
    proof {
        assert(data@.skip(1) =~= data@.skip(0int).skip(1));
    }
    if tag == 1u8 {
        match take_event(sl, 1) {
            Some((e, p)) => {
                if p == sl.len() {
                    proof {
                        assert(data@.skip(p as int).len() == 0);
                    }
                    Some(ClientMessage::NewEvent(e))
                } else {
                    None
                }
            },
            None => None,
        }
    } else if tag == 2u8 {
        match take_u64(sl, 1) {
            Some((id, p)) => {
                if p == sl.len() {
                    proof {
                        assert(data@.skip(p as int).len() == 0);
                    }
                    Some(ClientMessage::GetEvent(id))
                } else {
                    None
                }
            },
            None => None,
        }
    } else if tag == 3u8 {
        match take_u64(sl, 1) {
            Some((id, p)) => {
                if p == sl.len() {
                    proof {
                        assert(data@.skip(p as int).len() == 0);
                    }
                    Some(ClientMessage::GetSince(id))
                } else {
                    None
                }
            },
            None => None,
        }
    } else if tag == 4u8 {
        match take_bytes(sl, 1) {
            Some((p_payload, p)) => {
                if p == sl.len() {
                    proof {
                        assert(data@.skip(p as int).len() == 0);
                    }
                    Some(ClientMessage::Ping(p_payload))
                } else {
                    None
                }
            },
            None => None,
        }
    } else {
        None
    }
}

/// Decode one server response frame; malformed frames give back nothing.
pub fn decode_server_response(data: &Vec<u8>) -> (r: Option<ServerResponse>)
    ensures
        r matches Some(m) ==> spec_decode_server(data@) == Some(m@),
        r is None ==> spec_decode_server(data@) is None,
{
    let sl = data.as_slice();
    if sl.len() == 0 {
        return None;
    }
    let tag = *vstd::slice::slice_index_get(sl, 0);
    proof {
        assert(data@.skip(1) =~= data@.skip(0int).skip(1));
    }
    if tag == 1u8 {
        match take_event_db(sl, 1) {
            Some((e, p)) => {
                if p == sl.len() {
                    proof {
                        assert(data@.skip(p as int).len() == 0);
                    }
                    Some(ServerResponse::Event(e))
                } else {
                    None
                }
            },
            None => None,
        }
    } else if tag == 2u8 {
        match take_error(sl, 1) {
            Some((e, p)) => {
                if p == sl.len() {
                    proof {
                        assert(data@.skip(p as int).len() == 0);
                    }
                    Some(ServerResponse::Error(e))
                } else {
                    None
                }
            },
            None => None,
        }
    } else if tag == 3u8 {
        match take_bytes(sl, 1) {
            Some((p_payload, p)) => {
                if p == sl.len() {
                    proof {
                        assert(data@.skip(p as int).len() == 0);
                    }
                    Some(ServerResponse::Pong(p_payload))
                } else {
                    None
                }
            },
            None => None,
        }
    } else if tag == 4u8 {
        match take_bytes(sl, 1) {
            Some((p_payload, p)) => {
                if p == sl.len() {
                    proof {
                        assert(data@.skip(p as int).len() == 0);
                    }
                    Some(ServerResponse::Close(p_payload))
                } else {
                    None
                }
            },
            None => None,
        }
    } else {
        None
    }
}

} // verus!

