//! Wire framing for envelopes.
//!
//! Each envelope travels as one discrete binary message: a kind
//! discriminator byte followed by the fields of that kind. Strings travel
//! as length-prefixed UTF-8, binary blobs as length-prefixed raw bytes,
//! integers as eight little-endian bytes, optional fields behind a
//! presence byte. [`spec_encode`] and [`spec_decode`] define the format
//! mathematically; [`encode`] and [`decode`] implement it, and
//! [`lemma_decode_encode`] proves that decoding inverts encoding.

use vstd::prelude::*;
use vstd::bytes::*;
use vstd::slice::*;
use vstd::utf8::*;

use crate::connect::data::{Envelope, EnvelopeView, Event, EventView, Request, RequestView,
    Response, ResponseView, Stream, StreamView};

verus! {

/// A blob prefixed by its length as eight little-endian bytes.
pub open spec fn spec_len_prefixed(b: Seq<u8>) -> Seq<u8> {
    spec_u64_to_le_bytes(b.len() as u64) + b
}

/// A string field: its UTF-8 bytes, length-prefixed.
pub open spec fn spec_str_field(s: Seq<char>) -> Seq<u8> {
    spec_len_prefixed(encode_utf8(s))
}

/// An optional string field: a presence byte, then the field if present.
pub open spec fn spec_opt_str_field(s: Option<Seq<char>>) -> Seq<u8> {
    match s {
        None => seq![0u8],
        Some(s) => seq![1u8] + spec_str_field(s),
    }
}

/// An optional integer field: a presence byte, then the integer if present.
pub open spec fn spec_opt_u64_field(x: Option<u64>) -> Seq<u8> {
    match x {
        None => seq![0u8],
        Some(x) => seq![1u8] + spec_u64_to_le_bytes(x),
    }
}

/// The bytes that an envelope occupies on the wire.
pub open spec fn spec_encode(v: EnvelopeView) -> Seq<u8> {
    match v {
        EnvelopeView::Event(e) => seq![0u8] + spec_str_field(e.payload),
        EnvelopeView::Stream(s) => seq![1u8] + spec_str_field(s.tag) + spec_len_prefixed(s.bytes),
        EnvelopeView::Request(r) => seq![2u8] + spec_u64_to_le_bytes(r.id) + spec_str_field(
            r.command,
        ) + spec_opt_str_field(r.params) + spec_opt_u64_field(r.timeout_millis),
        EnvelopeView::Response(r) => seq![3u8] + spec_u64_to_le_bytes(r.id) + spec_opt_str_field(
            r.data,
        ) + spec_opt_str_field(r.error),
    }
}

/// Every variable-length field of the envelope fits its length prefix.
/// Views of executable envelopes always satisfy this; [`encode`] proves it.
pub open spec fn view_wf(v: EnvelopeView) -> bool {
    match v {
        EnvelopeView::Event(e) => encode_utf8(e.payload).len() <= u64::MAX,
        EnvelopeView::Stream(s) => encode_utf8(s.tag).len() <= u64::MAX && s.bytes.len()
            <= u64::MAX,
        EnvelopeView::Request(r) => encode_utf8(r.command).len() <= u64::MAX && (match r.params {
            Some(p) => encode_utf8(p).len() <= u64::MAX,
            None => true,
        }),
        EnvelopeView::Response(r) => (match r.data {
            Some(d) => encode_utf8(d).len() <= u64::MAX,
            None => true,
        }) && (match r.error {
            Some(e) => encode_utf8(e).len() <= u64::MAX,
            None => true,
        }),
    }
}

/// Reads eight length bytes and returns the integer and the remainder.
pub open spec fn take_u64(b: Seq<u8>) -> Option<(u64, Seq<u8>)> {
    if b.len() >= 8 {
        Some((spec_u64_from_le_bytes(b.take(8)), b.skip(8)))
    } else {
        None
    }
}

/// Reads a length-prefixed blob and returns it and the remainder.
pub open spec fn take_bytes(b: Seq<u8>) -> Option<(Seq<u8>, Seq<u8>)> {
    match take_u64(b) {
        Some((n, rest)) => if n <= rest.len() {
            Some((rest.take(n as int), rest.skip(n as int)))
        } else {
            None
        },
        None => None,
    }
}

/// Reads a length-prefixed blob of valid UTF-8 and returns its characters.
pub open spec fn take_string(b: Seq<u8>) -> Option<(Seq<char>, Seq<u8>)> {
    match take_bytes(b) {
        Some((bs, rest)) => if valid_utf8(bs) {
            Some((decode_utf8(bs), rest))
        } else {
            None
        },
        None => None,
    }
}

/// Reads a presence byte, then a string field if present.
pub open spec fn take_opt_string(b: Seq<u8>) -> Option<(Option<Seq<char>>, Seq<u8>)> {
    if b.len() < 1 {
        None
    } else if b[0] == 0u8 {
        Some((None, b.skip(1)))
    } else if b[0] == 1u8 {
        match take_string(b.skip(1)) {
            Some((s, rest)) => Some((Some(s), rest)),
            None => None,
        }
    } else {
        None
    }
}

/// Reads a presence byte, then eight integer bytes if present.
pub open spec fn take_opt_u64(b: Seq<u8>) -> Option<(Option<u64>, Seq<u8>)> {
    if b.len() < 1 {
        None
    } else if b[0] == 0u8 {
        Some((None, b.skip(1)))
    } else if b[0] == 1u8 {
        match take_u64(b.skip(1)) {
            Some((x, rest)) => Some((Some(x), rest)),
            None => None,
        }
    } else {
        None
    }
}

/// The envelope a frame denotes, or `None` where the frame is malformed:
/// an unknown kind byte, a field that overruns the frame, invalid UTF-8,
/// or trailing bytes after the last field.
pub open spec fn spec_decode(b: Seq<u8>) -> Option<EnvelopeView> {
    if b.len() < 1 {
        None
    } else if b[0] == 0u8 {
        match take_string(b.skip(1)) {
            Some((payload, rest)) => if rest.len() == 0 {
                Some(EnvelopeView::Event(EventView { payload }))
            } else {
                None
            },
            None => None,
        }
    } else if b[0] == 1u8 {
        match take_string(b.skip(1)) {
            Some((tag, rest)) => match take_bytes(rest) {
                Some((bytes, rest2)) => if rest2.len() == 0 {
                    Some(EnvelopeView::Stream(StreamView { tag, bytes }))
                } else {
                    None
                },
                None => None,
            },
            None => None,
        }
    } else if b[0] == 2u8 {
        match take_u64(b.skip(1)) {
            Some((id, rest)) => match take_string(rest) {
                Some((command, rest2)) => match take_opt_string(rest2) {
                    Some((params, rest3)) => match take_opt_u64(rest3) {
                        Some((timeout_millis, rest4)) => if rest4.len() == 0 {
                            Some(
                                EnvelopeView::Request(
                                    RequestView { id, command, params, timeout_millis },
                                ),
                            )
                        } else {
                            None
                        },
                        None => None,
                    },
                    None => None,
                },
                None => None,
            },
            None => None,
        }
    } else if b[0] == 3u8 {
        match take_u64(b.skip(1)) {
            Some((id, rest)) => match take_opt_string(rest) {
                Some((data, rest2)) => match take_opt_string(rest2) {
                    Some((error, rest3)) => if rest3.len() == 0 {
                        Some(EnvelopeView::Response(ResponseView { id, data, error }))
                    } else {
                        None
                    },
                    None => None,
                },
                None => None,
            },
            None => None,
        }
    } else {
        None
    }
}

proof fn lemma_take_u64_round(x: u64, rest: Seq<u8>)
    ensures
        take_u64(spec_u64_to_le_bytes(x) + rest) == Some((x, rest)),
{
    lemma_auto_spec_u64_to_from_le_bytes();
    let b = spec_u64_to_le_bytes(x) + rest;
    assert(b.take(8) =~= spec_u64_to_le_bytes(x));
    assert(b.skip(8) =~= rest);
}

proof fn lemma_take_bytes_round(bs: Seq<u8>, rest: Seq<u8>)
    requires
        bs.len() <= u64::MAX,
    ensures
        take_bytes(spec_len_prefixed(bs) + rest) == Some((bs, rest)),
{
    let n: u64 = bs.len() as u64;
    assert(spec_len_prefixed(bs) + rest =~= spec_u64_to_le_bytes(n) + (bs + rest));
    lemma_take_u64_round(n, bs + rest);
    assert((bs + rest).take(n as int) =~= bs);
    assert((bs + rest).skip(n as int) =~= rest);
}

proof fn lemma_take_string_round(s: Seq<char>, rest: Seq<u8>)
    requires
        encode_utf8(s).len() <= u64::MAX,
    ensures
        take_string(spec_str_field(s) + rest) == Some((s, rest)),
{
    broadcast use encode_utf8_valid_utf8, encode_utf8_decode_utf8;

    lemma_take_bytes_round(encode_utf8(s), rest);
}

proof fn lemma_take_opt_string_round(s: Option<Seq<char>>, rest: Seq<u8>)
    requires
        match s {
            Some(s) => encode_utf8(s).len() <= u64::MAX,
            None => true,
        },
    ensures
        take_opt_string(spec_opt_str_field(s) + rest) == Some((s, rest)),
{
    match s {
        None => {
            let b = spec_opt_str_field(s) + rest;
            assert(b[0] == 0u8);
            assert(b.skip(1) =~= rest);
        },
        Some(inner) => {
            let b = spec_opt_str_field(s) + rest;
            assert(b[0] == 1u8);
            assert(b.skip(1) =~= spec_str_field(inner) + rest);
            lemma_take_string_round(inner, rest);
        },
    }
}

proof fn lemma_take_opt_u64_round(x: Option<u64>, rest: Seq<u8>)
    ensures
        take_opt_u64(spec_opt_u64_field(x) + rest) == Some((x, rest)),
{
    match x {
        None => {
            let b = spec_opt_u64_field(x) + rest;
            assert(b[0] == 0u8);
            assert(b.skip(1) =~= rest);
        },
        Some(inner) => {
            let b = spec_opt_u64_field(x) + rest;
            assert(b[0] == 1u8);
            assert(b.skip(1) =~= spec_u64_to_le_bytes(inner) + rest);
            lemma_take_u64_round(inner, rest);
        },
    }
}

/// Decoding inverts encoding: every well-formed envelope comes back intact
/// from its own frame.
pub proof fn lemma_decode_encode(v: EnvelopeView)
    requires
        view_wf(v),
    ensures
        spec_decode(spec_encode(v)) == Some(v),
{
    let b = spec_encode(v);
    let empty = Seq::<u8>::empty();
    match v {
        EnvelopeView::Event(e) => {
            assert(b[0] == 0u8);
            assert(b.skip(1) =~= spec_str_field(e.payload) + empty);
            lemma_take_string_round(e.payload, empty);
        },
        EnvelopeView::Stream(s) => {
            assert(b[0] == 1u8);
            assert(b.skip(1) =~= spec_str_field(s.tag) + (spec_len_prefixed(s.bytes) + empty));
            lemma_take_string_round(s.tag, spec_len_prefixed(s.bytes) + empty);
            lemma_take_bytes_round(s.bytes, empty);
        },
        EnvelopeView::Request(r) => {
            assert(b[0] == 2u8);
            let f4 = spec_opt_u64_field(r.timeout_millis) + empty;
            let f3 = spec_opt_str_field(r.params) + f4;
            let f2 = spec_str_field(r.command) + f3;
            assert(b.skip(1) =~= spec_u64_to_le_bytes(r.id) + f2);
            lemma_take_u64_round(r.id, f2);
            lemma_take_string_round(r.command, f3);
            lemma_take_opt_string_round(r.params, f4);
            lemma_take_opt_u64_round(r.timeout_millis, empty);
        },
        EnvelopeView::Response(r) => {
            assert(b[0] == 3u8);
            let f3 = spec_opt_str_field(r.error) + empty;
            let f2 = spec_opt_str_field(r.data) + f3;
            assert(b.skip(1) =~= spec_u64_to_le_bytes(r.id) + f2);
            lemma_take_u64_round(r.id, f2);
            lemma_take_opt_string_round(r.data, f3);
            lemma_take_opt_string_round(r.error, empty);
        },
    }
}

/// A stream chunk survives the wire byte-for-byte: the frame written for
/// tag `t` and payload `b` decodes to exactly that tag and that payload.
/// Frames are routed one at a time in arrival order, so repeated sends on
/// one tag are observed by the receiving stream handler as the same
/// chunks in the same order.
pub proof fn lemma_stream_round_trip(t: Seq<char>, b: Seq<u8>)
    requires
        encode_utf8(t).len() <= u64::MAX,
        b.len() <= u64::MAX,
    ensures
        spec_decode(spec_encode(EnvelopeView::Stream(StreamView { tag: t, bytes: b }))) == Some(
            EnvelopeView::Stream(StreamView { tag: t, bytes: b }),
        ),
{
    lemma_decode_encode(EnvelopeView::Stream(StreamView { tag: t, bytes: b }));
}

/// No two well-formed envelopes share a frame.
pub proof fn lemma_encode_injective(v1: EnvelopeView, v2: EnvelopeView)
    requires
        view_wf(v1),
        view_wf(v2),
        spec_encode(v1) == spec_encode(v2),
    ensures
        v1 == v2,
{
    lemma_decode_encode(v1);
    lemma_decode_encode(v2);
}

fn push_u64(out: &mut Vec<u8>, x: u64)
    ensures
        final(out)@ == old(out)@ + spec_u64_to_le_bytes(x),
{
    let mut b = u64_to_le_bytes(x);
    out.append(&mut b);
}

fn push_bytes(out: &mut Vec<u8>, b: &[u8])
    ensures
        final(out)@ == old(out)@ + spec_len_prefixed(b@),
        b@.len() <= u64::MAX,
{
    push_u64(out, b.len() as u64);
    out.extend_from_slice(b);
}

fn push_string(out: &mut Vec<u8>, s: &str)
    ensures
        final(out)@ == old(out)@ + spec_str_field(s@),
        encode_utf8(s@).len() <= u64::MAX,
{
    push_bytes(out, s.as_bytes());
}

fn push_opt_string(out: &mut Vec<u8>, s: &Option<String>)
    ensures
        final(out)@ == old(out)@ + spec_opt_str_field(s.deep_view()),
        match s.deep_view() {
            Some(inner) => encode_utf8(inner).len() <= u64::MAX,
            None => true,
        },
{
    match s {
        None => {
            out.push(0u8);
            assert(final(out)@ =~= old(out)@ + seq![0u8]);
        },
        Some(inner) => {
            out.push(1u8);
            push_string(out, inner.as_str());
            assert(final(out)@ =~= old(out)@ + (seq![1u8] + spec_str_field(inner@)));
        },
    }
}

fn push_opt_u64(out: &mut Vec<u8>, x: &Option<u64>)
    ensures
        final(out)@ == old(out)@ + spec_opt_u64_field(x.deep_view()),
{
    match x {
        None => {
            out.push(0u8);
            assert(final(out)@ =~= old(out)@ + seq![0u8]);
        },
        Some(inner) => {
            out.push(1u8);
            push_u64(out, *inner);
            assert(final(out)@ =~= old(out)@ + (seq![1u8] + spec_u64_to_le_bytes(*inner)));
        },
    }
}

/// Serializes an envelope to its frame.
pub fn encode(e: &Envelope) -> (r: Vec<u8>)
    ensures
        r@ == spec_encode(e@),
        view_wf(e@),
{
    let mut out: Vec<u8> = Vec::new();
    match e {
        Envelope::Event(ev) => {
            out.push(0u8);
            push_string(&mut out, ev.payload.as_str());
            assert(out@ =~= seq![0u8] + spec_str_field(ev.payload@));
        },
        Envelope::Stream(s) => {
            out.push(1u8);
            push_string(&mut out, s.tag.as_str());
            push_bytes(&mut out, s.bytes.as_slice());
            assert(out@ =~= seq![1u8] + spec_str_field(s.tag@) + spec_len_prefixed(s.bytes@));
        },
        Envelope::Request(rq) => {
            out.push(2u8);
            push_u64(&mut out, rq.id);
            push_string(&mut out, rq.command.as_str());
            push_opt_string(&mut out, &rq.params);
            push_opt_u64(&mut out, &rq.timeout_millis);
            assert(out@ =~= seq![2u8] + spec_u64_to_le_bytes(rq.id) + spec_str_field(rq.command@)
                + spec_opt_str_field(rq.params.deep_view()) + spec_opt_u64_field(
                rq.timeout_millis.deep_view(),
            ));
        },
        Envelope::Response(rs) => {
            out.push(3u8);
            push_u64(&mut out, rs.id);
            push_opt_string(&mut out, &rs.data);
            push_opt_string(&mut out, &rs.error);
            assert(out@ =~= seq![3u8] + spec_u64_to_le_bytes(rs.id) + spec_opt_str_field(
                rs.data.deep_view(),
            ) + spec_opt_str_field(rs.error.deep_view()));
        },
    }
    out
}

/// Relies on String::from_utf8: it succeeds exactly on valid UTF-8 input,
/// and the string it returns decodes those bytes.
#[verifier::external_body]
fn string_from_utf8(v: Vec<u8>) -> (r: Option<String>)
    ensures
        match r {
            Some(s) => valid_utf8(v@) && s@ == decode_utf8(v@),
            None => !valid_utf8(v@),
        },
{
    String::from_utf8(v).ok()
}

fn read_u64_at(b: &Vec<u8>, pos: usize) -> (r: Option<(u64, usize)>)
    requires
        pos <= b@.len(),
    ensures
        match r {
            Some((x, p)) => pos + 8 == p && p <= b@.len() && take_u64(b@.skip(pos as int))
                == Some((x, b@.skip(p as int))),
            None => take_u64(b@.skip(pos as int)) is None,
        },
{
    if b.len() - pos >= 8 {
        let s = slice_subrange(b.as_slice(), pos, pos + 8);
        let x = u64_from_le_bytes(s);
        proof {
            assert(s@ =~= b@.skip(pos as int).take(8));
            assert(b@.skip(pos as int).skip(8) =~= b@.skip(pos as int + 8));
        }
        Some((x, pos + 8))
    } else {
        None
    }
}

fn read_bytes_at(b: &Vec<u8>, pos: usize) -> (r: Option<(Vec<u8>, usize)>)
    requires
        pos <= b@.len(),
    ensures
        match r {
            Some((bs, p)) => p <= b@.len() && take_bytes(b@.skip(pos as int))
                == Some((bs@, b@.skip(p as int))),
            None => take_bytes(b@.skip(pos as int)) is None,
        },
{
    match read_u64_at(b, pos) {
        None => None,
        Some((n, p1)) => {
            let rem = b.len() - p1;
            if n <= rem as u64 {
                let n2 = n as usize;
                let s = slice_subrange(b.as_slice(), p1, p1 + n2);
                let body = slice_to_vec(s);
                proof {
                    assert(b@.skip(p1 as int).len() == rem);
                    assert(s@ =~= b@.skip(p1 as int).take(n as int));
                    assert(b@.skip(p1 as int).skip(n as int) =~= b@.skip(p1 as int + n2));
                }
                Some((body, p1 + n2))
            } else {
                proof {
                    assert(b@.skip(p1 as int).len() == rem);
                }
                None
            }
        },
    }
}

fn read_string_at(b: &Vec<u8>, pos: usize) -> (r: Option<(String, usize)>)
    requires
        pos <= b@.len(),
    ensures
        match r {
            Some((s, p)) => p <= b@.len() && take_string(b@.skip(pos as int))
                == Some((s@, b@.skip(p as int))),
            None => take_string(b@.skip(pos as int)) is None,
        },
{
    match read_bytes_at(b, pos) {
        None => None,
        Some((bs, p)) => match string_from_utf8(bs) {
            Some(s) => Some((s, p)),
            None => None,
        },
    }
}

fn read_opt_string_at(b: &Vec<u8>, pos: usize) -> (r: Option<(Option<String>, usize)>)
    requires
        pos <= b@.len(),
    ensures
        match r {
            Some((s, p)) => p <= b@.len() && take_opt_string(b@.skip(pos as int))
                == Some((s.deep_view(), b@.skip(p as int))),
            None => take_opt_string(b@.skip(pos as int)) is None,
        },
{
    if pos >= b.len() {
        None
    } else {
        let flag = b[pos];
        proof {
            assert(b@.skip(pos as int)[0] == b@[pos as int]);
            assert(b@.skip(pos as int).skip(1) =~= b@.skip(pos as int + 1));
        }
        if flag == 0u8 {
            Some((None, pos + 1))
        } else if flag == 1u8 {
            match read_string_at(b, pos + 1) {
                Some((s, p)) => Some((Some(s), p)),
                None => None,
            }
        } else {
            None
        }
    }
}

fn read_opt_u64_at(b: &Vec<u8>, pos: usize) -> (r: Option<(Option<u64>, usize)>)
    requires
        pos <= b@.len(),
    ensures
        match r {
            Some((x, p)) => p <= b@.len() && take_opt_u64(b@.skip(pos as int))
                == Some((x.deep_view(), b@.skip(p as int))),
            None => take_opt_u64(b@.skip(pos as int)) is None,
        },
{
    if pos >= b.len() {
        None
    } else {
        let flag = b[pos];
        proof {
            assert(b@.skip(pos as int)[0] == b@[pos as int]);
            assert(b@.skip(pos as int).skip(1) =~= b@.skip(pos as int + 1));
        }
        if flag == 0u8 {
            Some((None, pos + 1))
        } else if flag == 1u8 {
            match read_u64_at(b, pos + 1) {
                Some((x, p)) => Some((Some(x), p)),
                None => None,
            }
        } else {
            None
        }
    }
}

/// Parses a frame back into an envelope; `None` on any malformed frame.
pub fn decode(frame: &Vec<u8>) -> (r: Option<Envelope>)
    ensures
        match r {
            Some(e) => spec_decode(frame@) == Some(e@),
            None => spec_decode(frame@) is None,
        },
{
    if frame.len() < 1 {
        return None;
    }
    let kind = frame[0];
    proof {
        assert(frame@.skip(0) =~= frame@);
    }
    if kind == 0u8 {
        match read_string_at(frame, 1) {
            Some((payload, p)) => if p == frame.len() {
                proof {
                    assert(frame@.skip(p as int).len() == 0);
                }
                Some(Envelope::Event(Event { payload }))
            } else {
                proof {
                    assert(frame@.skip(p as int).len() != 0);
                }
                None
            },
            None => None,
        }
    } else if kind == 1u8 {
        match read_string_at(frame, 1) {
            Some((tag, p)) => match read_bytes_at(frame, p) {
                Some((bytes, p2)) => if p2 == frame.len() {
                    proof {
                        assert(frame@.skip(p2 as int).len() == 0);
                    }
                    Some(Envelope::Stream(Stream { tag, bytes }))
                } else {
                    proof {
                        assert(frame@.skip(p2 as int).len() != 0);
                    }
                    None
                },
                None => None,
            },
            None => None,
        }
    } else if kind == 2u8 {
        match read_u64_at(frame, 1) {
            Some((id, p)) => match read_string_at(frame, p) {
                Some((command, p2)) => match read_opt_string_at(frame, p2) {
                    Some((params, p3)) => match read_opt_u64_at(frame, p3) {
                        Some((timeout_millis, p4)) => if p4 == frame.len() {
                            proof {
                                assert(frame@.skip(p4 as int).len() == 0);
                            }
                            Some(Envelope::Request(Request { id, command, params, timeout_millis }))
                        } else {
                            proof {
                                assert(frame@.skip(p4 as int).len() != 0);
                            }
                            None
                        },
                        None => None,
                    },
                    None => None,
                },
                None => None,
            },
            None => None,
        }
    } else if kind == 3u8 {
        match read_u64_at(frame, 1) {
            Some((id, p)) => match read_opt_string_at(frame, p) {
                Some((data, p2)) => match read_opt_string_at(frame, p2) {
                    Some((error, p3)) => if p3 == frame.len() {
                        proof {
                            assert(frame@.skip(p3 as int).len() == 0);
                        }
                        Some(Envelope::Response(Response { id, data, error }))
                    } else {
                        proof {
                            assert(frame@.skip(p3 as int).len() != 0);
                        }
                        None
                    },
                    None => None,
                },
                None => None,
            },
            None => None,
        }
    } else {
        None
    }
}

} // verus!
