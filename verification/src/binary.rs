//! The binary wire form of the protocol.
//!
//! A deterministic, self-describing layout: the envelope is one tag byte
//! (one per variant) followed by the variant's fields in order.  Integers are
//! little-endian; strings and byte payloads carry a 32-bit byte-length
//! prefix, strings as UTF-8; a path carries a 32-bit count prefix; instants
//! are seconds plus nanoseconds, durations likewise.  Decoding accepts
//! exactly the encodings: a short stream, an unknown tag, an unparsable
//! field or trailing bytes are each reported as a typed error, never as a
//! default value.

use vstd::prelude::*;
use vstd::bytes::lemma_auto_spec_u32_to_from_le_bytes;
use vstd::bytes::lemma_auto_spec_u64_to_from_le_bytes;
use vstd::bytes::spec_u32_from_le_bytes;
use vstd::bytes::spec_u32_to_le_bytes;
use vstd::bytes::spec_u64_from_le_bytes;
use vstd::bytes::spec_u64_to_le_bytes;
use vstd::bytes::u32_from_le_bytes;
use vstd::bytes::u32_to_le_bytes;
use vstd::bytes::u64_from_le_bytes;
use vstd::bytes::u64_to_le_bytes;
use vstd::slice::slice_subrange;
use vstd::slice::slice_to_vec;
use vstd::utf8::decode_utf8;
use vstd::utf8::encode_utf8;
use vstd::utf8::encode_utf8_decode_utf8;
use vstd::utf8::encode_utf8_valid_utf8;
use vstd::utf8::valid_utf8;

use crate::messages::AckMessage;
use crate::messages::AckMessageV;
use crate::messages::EdgeCutMessage;
use crate::messages::EdgeCutMessageV;
use crate::messages::NodeIdMessage;
use crate::messages::NodeIdMessageV;
use crate::messages::PaymentMessage;
use crate::messages::PaymentMessageV;
use crate::messages::PoRRequest;
use crate::messages::PoRResponse;
use crate::messages::PorMessage;
use crate::messages::PorMessageV;
use crate::messages::RequestId;
use crate::messages::RequestIdV;
use crate::messages::RequestMessage;
use crate::messages::RequestMessageV;
use crate::messages::ResponseMessage;
use crate::messages::ResponseMessageV;
use crate::messages::SyncMessage;
use crate::messages::SyncMessageV;
use crate::text::string_from_utf8;
use crate::timing::PorDuration;
use crate::timing::UtcInstant;

verus! {

/// Why a byte stream was rejected: it ended early, its tag byte matches no
/// variant, a fixed-layout field holds an unparsable value, or bytes follow
/// the end of the message.
#[derive(Clone, Copy, Debug, PartialEq, Eq, Structural)]
pub enum DecodeError {
    Truncated,
    UnknownTag,
    InvalidField,
    TrailingBytes,
}

/// Why a message could not be encoded: a string, payload or path is too long
/// for its 32-bit length prefix.
#[derive(Clone, Copy, Debug, PartialEq, Eq, Structural)]
pub enum EncodeError {
    Oversize,
}

// ---------------------------------------------------------------------------
// The layout, as functions from values to byte sequences
// ---------------------------------------------------------------------------

/// The 64-bit two's-complement image of a signed value.
pub open spec fn i64_bits(x: i64) -> u64 {
    if x >= 0 {
        x as u64
    } else {
        (x + 0x1_0000_0000_0000_0000) as u64
    }
}

/// The signed value a 64-bit two's-complement image stands for.
pub open spec fn i64_of_bits(y: u64) -> i64 {
    if y <= 0x7fff_ffff_ffff_ffff {
        y as i64
    } else {
        (y - 0x1_0000_0000_0000_0000) as i64
    }
}

pub open spec fn enc_bool(v: bool) -> Seq<u8> {
    seq![if v { 1u8 } else { 0u8 }]
}

/// A byte payload: 32-bit byte-length prefix, then the bytes.
pub open spec fn enc_bytes(b: Seq<u8>) -> Seq<u8>
    recommends
        b.len() <= 0xffff_ffff,
{
    spec_u32_to_le_bytes(b.len() as u32) + b
}

/// A string: its UTF-8 bytes behind a 32-bit byte-length prefix.
pub open spec fn enc_str(s: Seq<char>) -> Seq<u8> {
    enc_bytes(encode_utf8(s))
}

pub open spec fn enc_instant(i: UtcInstant) -> Seq<u8> {
    spec_u64_to_le_bytes(i64_bits(i.secs)) + spec_u32_to_le_bytes(i.nanos)
}

pub open spec fn enc_duration(d: PorDuration) -> Seq<u8> {
    spec_u64_to_le_bytes(d.secs) + spec_u32_to_le_bytes(d.nanos)
}

pub open spec fn enc_request_id(r: RequestIdV) -> Seq<u8> {
    enc_str(r.origin_node) + enc_instant(r.timestamp) + spec_u32_to_le_bytes(r.sequence)
}

/// The strings of a path, one after the other.
pub open spec fn enc_str_list(p: Seq<Seq<char>>) -> Seq<u8>
    decreases p.len(),
{
    if p.len() == 0 {
        Seq::empty()
    } else {
        enc_str(p[0]) + enc_str_list(p.drop_first())
    }
}

/// A path: 32-bit count prefix, then its strings.
pub open spec fn enc_path(p: Seq<Seq<char>>) -> Seq<u8>
    recommends
        p.len() <= 0xffff_ffff,
{
    spec_u32_to_le_bytes(p.len() as u32) + enc_str_list(p)
}

/// The binary encoding of a message: one tag byte, then the fields in order.
pub open spec fn spec_encode(m: PorMessageV) -> Seq<u8> {
    match m {
        PorMessageV::Request(v) => seq![1u8] + enc_request_id(v.request_id) + enc_str(v.payload)
            + enc_path(v.path) + enc_duration(v.total_latency) + spec_u64_to_le_bytes(
            v.total_cost,
        ),
        PorMessageV::Response(v) => seq![2u8] + enc_request_id(v.request_id) + enc_str(v.payload),
        PorMessageV::EdgeCut(v) => seq![3u8] + enc_request_id(v.request_id) + enc_str(v.node1)
            + enc_str(v.node2),
        PorMessageV::Sync(v) => seq![4u8] + enc_request_id(v.request_id) + enc_instant(v.timestamp)
            + enc_instant(v.next_expected) + enc_bool(v.has_late_payment),
        PorMessageV::Payment(v) => seq![5u8] + enc_request_id(v.request_id) + spec_u64_to_le_bytes(
            v.amount,
        ) + enc_duration(v.latency_so_far),
        PorMessageV::Ack(v) => seq![6u8] + enc_request_id(v.request_id),
        PorMessageV::NodeId(v) => seq![7u8] + enc_str(v.node_name) + spec_u32_to_le_bytes(
            v.node_version,
        ),
    }
}

// ---------------------------------------------------------------------------
// What fits the 32-bit length prefixes
// ---------------------------------------------------------------------------

pub open spec fn str_encodable(s: Seq<char>) -> bool {
    encode_utf8(s).len() <= 0xffff_ffff
}

pub open spec fn path_encodable(p: Seq<Seq<char>>) -> bool {
    p.len() <= 0xffff_ffff && (forall|i: int| 0 <= i < p.len() ==> str_encodable(#[trigger] p[i]))
}

pub open spec fn request_id_encodable(r: RequestIdV) -> bool {
    str_encodable(r.origin_node)
}

/// Whether every length in the message fits its 32-bit prefix.
pub open spec fn encodable(m: PorMessageV) -> bool {
    match m {
        PorMessageV::Request(v) => request_id_encodable(v.request_id) && str_encodable(v.payload)
            && path_encodable(v.path),
        PorMessageV::Response(v) => request_id_encodable(v.request_id) && str_encodable(v.payload),
        PorMessageV::EdgeCut(v) => request_id_encodable(v.request_id) && str_encodable(v.node1)
            && str_encodable(v.node2),
        PorMessageV::Sync(v) => request_id_encodable(v.request_id),
        PorMessageV::Payment(v) => request_id_encodable(v.request_id),
        PorMessageV::Ack(v) => request_id_encodable(v.request_id),
        PorMessageV::NodeId(v) => str_encodable(v.node_name),
    }
}

// ---------------------------------------------------------------------------
// The parse, as functions from byte sequences to values
// ---------------------------------------------------------------------------

pub open spec fn dec_u32(b: Seq<u8>, pos: int) -> Result<(u32, int), DecodeError> {
    if pos + 4 <= b.len() {
        Ok((spec_u32_from_le_bytes(b.subrange(pos, pos + 4)), pos + 4))
    } else {
        Err(DecodeError::Truncated)
    }
}

pub open spec fn dec_u64(b: Seq<u8>, pos: int) -> Result<(u64, int), DecodeError> {
    if pos + 8 <= b.len() {
        Ok((spec_u64_from_le_bytes(b.subrange(pos, pos + 8)), pos + 8))
    } else {
        Err(DecodeError::Truncated)
    }
}

pub open spec fn dec_i64(b: Seq<u8>, pos: int) -> Result<(i64, int), DecodeError> {
    match dec_u64(b, pos) {
        Err(e) => Err(e),
        Ok((y, p)) => Ok((i64_of_bits(y), p)),
    }
}

pub open spec fn dec_bool(b: Seq<u8>, pos: int) -> Result<(bool, int), DecodeError> {
    if pos + 1 <= b.len() {
        if b[pos] == 0 {
            Ok((false, pos + 1))
        } else if b[pos] == 1 {
            Ok((true, pos + 1))
        } else {
            Err(DecodeError::InvalidField)
        }
    } else {
        Err(DecodeError::Truncated)
    }
}

pub open spec fn dec_bytes(b: Seq<u8>, pos: int) -> Result<(Seq<u8>, int), DecodeError> {
    match dec_u32(b, pos) {
        Err(e) => Err(e),
        Ok((n, p)) => if p + n <= b.len() {
            Ok((b.subrange(p, p + n), p + n))
        } else {
            Err(DecodeError::Truncated)
        },
    }
}

pub open spec fn dec_str(b: Seq<u8>, pos: int) -> Result<(Seq<char>, int), DecodeError> {
    match dec_bytes(b, pos) {
        Err(e) => Err(e),
        Ok((raw, p)) => if valid_utf8(raw) {
            Ok((decode_utf8(raw), p))
        } else {
            Err(DecodeError::InvalidField)
        },
    }
}

pub open spec fn dec_instant(b: Seq<u8>, pos: int) -> Result<(UtcInstant, int), DecodeError> {
    match dec_i64(b, pos) {
        Err(e) => Err(e),
        Ok((secs, p1)) => match dec_u32(b, p1) {
            Err(e) => Err(e),
            Ok((nanos, p2)) => if nanos < 1_000_000_000 {
                Ok((UtcInstant { secs, nanos }, p2))
            } else {
                Err(DecodeError::InvalidField)
            },
        },
    }
}

pub open spec fn dec_duration(b: Seq<u8>, pos: int) -> Result<(PorDuration, int), DecodeError> {
    match dec_u64(b, pos) {
        Err(e) => Err(e),
        Ok((secs, p1)) => match dec_u32(b, p1) {
            Err(e) => Err(e),
            Ok((nanos, p2)) => if nanos < 1_000_000_000 {
                Ok((PorDuration { secs, nanos }, p2))
            } else {
                Err(DecodeError::InvalidField)
            },
        },
    }
}

pub open spec fn dec_request_id(b: Seq<u8>, pos: int) -> Result<(RequestIdV, int), DecodeError> {
    match dec_str(b, pos) {
        Err(e) => Err(e),
        Ok((origin_node, p1)) => match dec_instant(b, p1) {
            Err(e) => Err(e),
            Ok((timestamp, p2)) => match dec_u32(b, p2) {
                Err(e) => Err(e),
                Ok((sequence, p3)) => Ok((RequestIdV { origin_node, timestamp, sequence }, p3)),
            },
        },
    }
}

pub open spec fn dec_str_list(b: Seq<u8>, pos: int, n: nat) -> Result<
    (Seq<Seq<char>>, int),
    DecodeError,
>
    decreases n,
{
    if n == 0 {
        Ok((Seq::empty(), pos))
    } else {
        match dec_str(b, pos) {
            Err(e) => Err(e),
            Ok((s, p)) => match dec_str_list(b, p, (n - 1) as nat) {
                Err(e) => Err(e),
                Ok((rest, end)) => Ok((seq![s] + rest, end)),
            },
        }
    }
}

pub open spec fn dec_path(b: Seq<u8>, pos: int) -> Result<(Seq<Seq<char>>, int), DecodeError> {
    match dec_u32(b, pos) {
        Err(e) => Err(e),
        Ok((n, p)) => dec_str_list(b, p, n as nat),
    }
}

pub open spec fn dec_request(b: Seq<u8>, pos: int) -> Result<(RequestMessageV, int), DecodeError> {
    match dec_request_id(b, pos) {
        Err(e) => Err(e),
        Ok((request_id, p1)) => match dec_str(b, p1) {
            Err(e) => Err(e),
            Ok((payload, p2)) => match dec_path(b, p2) {
                Err(e) => Err(e),
                Ok((path, p3)) => match dec_duration(b, p3) {
                    Err(e) => Err(e),
                    Ok((total_latency, p4)) => match dec_u64(b, p4) {
                        Err(e) => Err(e),
                        Ok((total_cost, p5)) => Ok((
                            RequestMessageV { request_id, payload, path, total_latency, total_cost },
                            p5,
                        )),
                    },
                },
            },
        },
    }
}

pub open spec fn dec_response(b: Seq<u8>, pos: int) -> Result<
    (ResponseMessageV, int),
    DecodeError,
> {
    match dec_request_id(b, pos) {
        Err(e) => Err(e),
        Ok((request_id, p1)) => match dec_str(b, p1) {
            Err(e) => Err(e),
            Ok((payload, p2)) => Ok((ResponseMessageV { request_id, payload }, p2)),
        },
    }
}

pub open spec fn dec_edge_cut(b: Seq<u8>, pos: int) -> Result<(EdgeCutMessageV, int), DecodeError> {
    match dec_request_id(b, pos) {
        Err(e) => Err(e),
        Ok((request_id, p1)) => match dec_str(b, p1) {
            Err(e) => Err(e),
            Ok((node1, p2)) => match dec_str(b, p2) {
                Err(e) => Err(e),
                Ok((node2, p3)) => Ok((EdgeCutMessageV { request_id, node1, node2 }, p3)),
            },
        },
    }
}

pub open spec fn dec_sync(b: Seq<u8>, pos: int) -> Result<(SyncMessageV, int), DecodeError> {
    match dec_request_id(b, pos) {
        Err(e) => Err(e),
        Ok((request_id, p1)) => match dec_instant(b, p1) {
            Err(e) => Err(e),
            Ok((timestamp, p2)) => match dec_instant(b, p2) {
                Err(e) => Err(e),
                Ok((next_expected, p3)) => match dec_bool(b, p3) {
                    Err(e) => Err(e),
                    Ok((has_late_payment, p4)) => Ok((
                        SyncMessageV { request_id, timestamp, next_expected, has_late_payment },
                        p4,
                    )),
                },
            },
        },
    }
}

pub open spec fn dec_payment(b: Seq<u8>, pos: int) -> Result<(PaymentMessageV, int), DecodeError> {
    match dec_request_id(b, pos) {
        Err(e) => Err(e),
        Ok((request_id, p1)) => match dec_u64(b, p1) {
            Err(e) => Err(e),
            Ok((amount, p2)) => match dec_duration(b, p2) {
                Err(e) => Err(e),
                Ok((latency_so_far, p3)) => Ok((
                    PaymentMessageV { request_id, amount, latency_so_far },
                    p3,
                )),
            },
        },
    }
}

pub open spec fn dec_ack(b: Seq<u8>, pos: int) -> Result<(AckMessageV, int), DecodeError> {
    match dec_request_id(b, pos) {
        Err(e) => Err(e),
        Ok((request_id, p1)) => Ok((AckMessageV { request_id }, p1)),
    }
}

pub open spec fn dec_node_id(b: Seq<u8>, pos: int) -> Result<(NodeIdMessageV, int), DecodeError> {
    match dec_str(b, pos) {
        Err(e) => Err(e),
        Ok((node_name, p1)) => match dec_u32(b, p1) {
            Err(e) => Err(e),
            Ok((node_version, p2)) => Ok((NodeIdMessageV { node_name, node_version }, p2)),
        },
    }
}

/// The parse of a whole envelope: one tag byte, the variant's fields, and
/// nothing after them.
pub open spec fn spec_decode(b: Seq<u8>) -> Result<PorMessageV, DecodeError> {
    if b.len() < 1 {
        Err(DecodeError::Truncated)
    } else if b[0] == 1 {
        match dec_request(b, 1) {
            Err(e) => Err(e),
            Ok((v, p)) => if p == b.len() {
                Ok(PorMessageV::Request(v))
            } else {
                Err(DecodeError::TrailingBytes)
            },
        }
    } else if b[0] == 2 {
        match dec_response(b, 1) {
            Err(e) => Err(e),
            Ok((v, p)) => if p == b.len() {
                Ok(PorMessageV::Response(v))
            } else {
                Err(DecodeError::TrailingBytes)
            },
        }
    } else if b[0] == 3 {
        match dec_edge_cut(b, 1) {
            Err(e) => Err(e),
            Ok((v, p)) => if p == b.len() {
                Ok(PorMessageV::EdgeCut(v))
            } else {
                Err(DecodeError::TrailingBytes)
            },
        }
    } else if b[0] == 4 {
        match dec_sync(b, 1) {
            Err(e) => Err(e),
            Ok((v, p)) => if p == b.len() {
                Ok(PorMessageV::Sync(v))
            } else {
                Err(DecodeError::TrailingBytes)
            },
        }
    } else if b[0] == 5 {
        match dec_payment(b, 1) {
            Err(e) => Err(e),
            Ok((v, p)) => if p == b.len() {
                Ok(PorMessageV::Payment(v))
            } else {
                Err(DecodeError::TrailingBytes)
            },
        }
    } else if b[0] == 6 {
        match dec_ack(b, 1) {
            Err(e) => Err(e),
            Ok((v, p)) => if p == b.len() {
                Ok(PorMessageV::Ack(v))
            } else {
                Err(DecodeError::TrailingBytes)
            },
        }
    } else if b[0] == 7 {
        match dec_node_id(b, 1) {
            Err(e) => Err(e),
            Ok((v, p)) => if p == b.len() {
                Ok(PorMessageV::NodeId(v))
            } else {
                Err(DecodeError::TrailingBytes)
            },
        }
    } else {
        Err(DecodeError::UnknownTag)
    }
}

// ---------------------------------------------------------------------------
// Encoding
// ---------------------------------------------------------------------------

fn write_u32(out: &mut Vec<u8>, v: u32)
    ensures
        final(out)@ == old(out)@ + spec_u32_to_le_bytes(v),
{
    let mut b = u32_to_le_bytes(v);
    out.append(&mut b);
}

fn write_u64(out: &mut Vec<u8>, v: u64)
    ensures
        final(out)@ == old(out)@ + spec_u64_to_le_bytes(v),
{
    let mut b = u64_to_le_bytes(v);
    out.append(&mut b);
}

fn write_i64(out: &mut Vec<u8>, v: i64)
    ensures
        final(out)@ == old(out)@ + spec_u64_to_le_bytes(i64_bits(v)),
{
    let bits: u64 = if v >= 0 {
        v as u64
    } else {
        ((v as i128) + 0x1_0000_0000_0000_0000) as u64
    };
    write_u64(out, bits);
}

fn write_bool(out: &mut Vec<u8>, v: bool)
    ensures
        final(out)@ == old(out)@ + enc_bool(v),
{
    out.push(if v { 1 } else { 0 });
    proof {
        assert(old(out)@.push(if v { 1u8 } else { 0u8 }) =~= old(out)@ + enc_bool(v));
    }
}

/// Append a byte payload behind its 32-bit length prefix.
fn write_bytes(out: &mut Vec<u8>, s: &[u8]) -> (r: Result<(), EncodeError>)
    ensures
        r is Ok ==> s@.len() <= 0xffff_ffff && final(out)@ == old(out)@ + enc_bytes(s@),
        r is Err ==> s@.len() > 0xffff_ffff,
{
    if s.len() > 0xffff_ffff {
        return Err(EncodeError::Oversize);
    }
    write_u32(out, s.len() as u32);
    let mut b = slice_to_vec(s);
    out.append(&mut b);
    proof {
        assert((old(out)@ + spec_u32_to_le_bytes(s@.len() as u32)) + s@ =~= old(out)@ + enc_bytes(
            s@,
        ));
    }
    Ok(())
}

/// Append a string's UTF-8 bytes behind their length prefix.
fn write_str(out: &mut Vec<u8>, s: &str) -> (r: Result<(), EncodeError>)
    ensures
        r is Ok ==> str_encodable(s@) && final(out)@ == old(out)@ + enc_str(s@),
        r is Err ==> !str_encodable(s@),
{
    write_bytes(out, s.as_bytes())
}

fn write_instant(out: &mut Vec<u8>, i: UtcInstant)
    ensures
        final(out)@ == old(out)@ + enc_instant(i),
{
    write_i64(out, i.secs);
    write_u32(out, i.nanos);
    proof {
        assert((old(out)@ + spec_u64_to_le_bytes(i64_bits(i.secs))) + spec_u32_to_le_bytes(i.nanos)
            =~= old(out)@ + enc_instant(i));
    }
}

fn write_duration(out: &mut Vec<u8>, d: PorDuration)
    ensures
        final(out)@ == old(out)@ + enc_duration(d),
{
    write_u64(out, d.secs);
    write_u32(out, d.nanos);
    proof {
        assert((old(out)@ + spec_u64_to_le_bytes(d.secs)) + spec_u32_to_le_bytes(d.nanos) =~= old(
            out,
        )@ + enc_duration(d));
    }
}

fn write_request_id(out: &mut Vec<u8>, r: &RequestId) -> (res: Result<(), EncodeError>)
    ensures
        res is Ok ==> request_id_encodable(r@) && final(out)@ == old(out)@ + enc_request_id(r@),
        res is Err ==> !request_id_encodable(r@),
{
    match write_str(out, r.origin_node.as_str()) {
        Err(e) => Err(e),
        Ok(()) => {
            write_instant(out, r.timestamp);
            write_u32(out, r.sequence);
            proof {
                assert(((old(out)@ + enc_str(r@.origin_node)) + enc_instant(r.timestamp))
                    + spec_u32_to_le_bytes(r.sequence) =~= old(out)@ + enc_request_id(r@));
            }
            Ok(())
        },
    }
}

/// The byte image of a path grows string by string, from the front.
proof fn lemma_enc_str_list_snoc(q: Seq<Seq<char>>, s: Seq<char>)
    ensures
        enc_str_list(q.push(s)) == enc_str_list(q) + enc_str(s),
    decreases q.len(),
{
    let qs = q.push(s);
    assert(qs.len() == q.len() + 1);
    assert(enc_str_list(qs) == enc_str(qs[0]) + enc_str_list(qs.drop_first()));
    if q.len() == 0 {
        assert(qs[0] == s);
        assert(qs.drop_first() =~= Seq::<Seq<char>>::empty());
        assert(enc_str_list(Seq::<Seq<char>>::empty()) == Seq::<u8>::empty());
        assert(enc_str_list(q) == Seq::<u8>::empty());
        assert(enc_str(s) + Seq::<u8>::empty() =~= Seq::<u8>::empty() + enc_str(s));
    } else {
        assert(qs[0] == q[0]);
        assert(qs.drop_first() =~= q.drop_first().push(s));
        lemma_enc_str_list_snoc(q.drop_first(), s);
        assert(enc_str_list(q) == enc_str(q[0]) + enc_str_list(q.drop_first()));
        assert(enc_str(q[0]) + (enc_str_list(q.drop_first()) + enc_str(s)) =~= (enc_str(q[0])
            + enc_str_list(q.drop_first())) + enc_str(s));
    }
}

fn write_path(out: &mut Vec<u8>, p: &Vec<String>) -> (r: Result<(), EncodeError>)
    ensures
        r is Ok ==> path_encodable(p.deep_view()) && final(out)@ == old(out)@ + enc_path(
            p.deep_view(),
        ),
        r is Err ==> !path_encodable(p.deep_view()),
{
    if p.len() > 0xffff_ffff {
        return Err(EncodeError::Oversize);
    }
    write_u32(out, p.len() as u32);
    let ghost base = out@;
    let mut i: usize = 0;
    while i < p.len()
        invariant
            i <= p.len(),
            p.deep_view().len() == p@.len(),
            p@.len() <= 0xffff_ffff,
            base == old(out)@ + spec_u32_to_le_bytes(p@.len() as u32),
            out@ == base + enc_str_list(p.deep_view().take(i as int)),
            forall|j: int| 0 <= j < i ==> str_encodable(#[trigger] p.deep_view()[j]),
        decreases p@.len() - i,
    {
        proof {
            assert(p.deep_view()[i as int] == p@[i as int]@);
        }
        match write_str(out, p[i].as_str()) {
            Err(_) => {
                proof {
                    assert(!str_encodable(p.deep_view()[i as int]));
                }
                return Err(EncodeError::Oversize);
            },
            Ok(()) => {
                proof {
                    lemma_enc_str_list_snoc(
                        p.deep_view().take(i as int),
                        p.deep_view()[i as int],
                    );
                    assert(p.deep_view().take(i + 1) =~= p.deep_view().take(i as int).push(
                        p.deep_view()[i as int],
                    ));
                    assert((base + enc_str_list(p.deep_view().take(i as int))) + enc_str(
                        p.deep_view()[i as int],
                    ) =~= base + enc_str_list(p.deep_view().take(i + 1)));
                }
                i += 1;
            },
        }
    }
    proof {
        assert(p.deep_view().take(p@.len() as int) =~= p.deep_view());
        assert(base + enc_str_list(p.deep_view()) =~= old(out)@ + enc_path(p.deep_view()));
    }
    Ok(())
}

/// Encode a message for the binary channel.  Encoding is deterministic and
/// succeeds for every message whose strings and path fit the format's 32-bit
/// length prefixes; it fails, without producing bytes, exactly otherwise.
pub fn encode(m: &PorMessage) -> (r: Result<Vec<u8>, EncodeError>)
    ensures
        match r {
            Ok(bytes) => encodable(m@) && bytes@ == spec_encode(m@),
            Err(_) => !encodable(m@),
        },
{
    let mut out: Vec<u8> = Vec::new();
    match m {
        PorMessage::Request(v) => {
            out.push(1);
            proof {
                assert(out@ =~= seq![1u8]);
            }
            match write_request_id(&mut out, &v.request_id) {
                Err(e) => Err(e),
                Ok(()) => match write_str(&mut out, v.payload.as_str()) {
                    Err(e) => Err(e),
                    Ok(()) => match write_path(&mut out, &v.path) {
                        Err(e) => Err(e),
                        Ok(()) => {
                            write_duration(&mut out, v.total_latency);
                            write_u64(&mut out, v.total_cost);
                            proof {
                                assert(out@ =~= spec_encode(m@));
                            }
                            Ok(out)
                        },
                    },
                },
            }
        },
        PorMessage::Response(v) => {
            out.push(2);
            proof {
                assert(out@ =~= seq![2u8]);
            }
            match write_request_id(&mut out, &v.request_id) {
                Err(e) => Err(e),
                Ok(()) => match write_str(&mut out, v.payload.as_str()) {
                    Err(e) => Err(e),
                    Ok(()) => {
                        proof {
                            assert(out@ =~= spec_encode(m@));
                        }
                        Ok(out)
                    },
                },
            }
        },
        PorMessage::EdgeCut(v) => {
            out.push(3);
            proof {
                assert(out@ =~= seq![3u8]);
            }
            match write_request_id(&mut out, &v.request_id) {
                Err(e) => Err(e),
                Ok(()) => match write_str(&mut out, v.node1.as_str()) {
                    Err(e) => Err(e),
                    Ok(()) => match write_str(&mut out, v.node2.as_str()) {
                        Err(e) => Err(e),
                        Ok(()) => {
                            proof {
                                assert(out@ =~= spec_encode(m@));
                            }
                            Ok(out)
                        },
                    },
                },
            }
        },
        PorMessage::Sync(v) => {
            out.push(4);
            proof {
                assert(out@ =~= seq![4u8]);
            }
            match write_request_id(&mut out, &v.request_id) {
                Err(e) => Err(e),
                Ok(()) => {
                    write_instant(&mut out, v.timestamp);
                    write_instant(&mut out, v.next_expected);
                    write_bool(&mut out, v.has_late_payment);
                    proof {
                        assert(out@ =~= spec_encode(m@));
                    }
                    Ok(out)
                },
            }
        },
        PorMessage::Payment(v) => {
            out.push(5);
            proof {
                assert(out@ =~= seq![5u8]);
            }
            match write_request_id(&mut out, &v.request_id) {
                Err(e) => Err(e),
                Ok(()) => {
                    write_u64(&mut out, v.amount);
                    write_duration(&mut out, v.latency_so_far);
                    proof {
                        assert(out@ =~= spec_encode(m@));
                    }
                    Ok(out)
                },
            }
        },
        PorMessage::Ack(v) => {
            out.push(6);
            proof {
                assert(out@ =~= seq![6u8]);
            }
            match write_request_id(&mut out, &v.request_id) {
                Err(e) => Err(e),
                Ok(()) => {
                    proof {
                        assert(out@ =~= spec_encode(m@));
                    }
                    Ok(out)
                },
            }
        },
        PorMessage::NodeId(v) => {
            out.push(7);
            proof {
                assert(out@ =~= seq![7u8]);
            }
            match write_str(&mut out, v.node_name.as_str()) {
                Err(e) => Err(e),
                Ok(()) => {
                    write_u32(&mut out, v.node_version);
                    proof {
                        assert(out@ =~= spec_encode(m@));
                    }
                    Ok(out)
                },
            }
        },
    }
}

// ---------------------------------------------------------------------------
// Decoding
// ---------------------------------------------------------------------------

fn read_u32(b: &[u8], pos: usize) -> (r: Result<(u32, usize), DecodeError>)
    requires
        pos <= b@.len(),
    ensures
        match r {
            Ok(t) => dec_u32(b@, pos as int) == Ok::<(u32, int), DecodeError>((t.0, t.1 as int))
                && t.1 <= b@.len(),
            Err(e) => dec_u32(b@, pos as int) == Err::<(u32, int), DecodeError>(e),
        },
{
    if b.len() - pos >= 4 {
        let x = u32_from_le_bytes(slice_subrange(b, pos, pos + 4));
        Ok((x, pos + 4))
    } else {
        Err(DecodeError::Truncated)
    }
}

fn read_u64(b: &[u8], pos: usize) -> (r: Result<(u64, usize), DecodeError>)
    requires
        pos <= b@.len(),
    ensures
        match r {
            Ok(t) => dec_u64(b@, pos as int) == Ok::<(u64, int), DecodeError>((t.0, t.1 as int))
                && t.1 <= b@.len(),
            Err(e) => dec_u64(b@, pos as int) == Err::<(u64, int), DecodeError>(e),
        },
{
    if b.len() - pos >= 8 {
        let x = u64_from_le_bytes(slice_subrange(b, pos, pos + 8));
        Ok((x, pos + 8))
    } else {
        Err(DecodeError::Truncated)
    }
}

fn read_i64(b: &[u8], pos: usize) -> (r: Result<(i64, usize), DecodeError>)
    requires
        pos <= b@.len(),
    ensures
        match r {
            Ok(t) => dec_i64(b@, pos as int) == Ok::<(i64, int), DecodeError>((t.0, t.1 as int))
                && t.1 <= b@.len(),
            Err(e) => dec_i64(b@, pos as int) == Err::<(i64, int), DecodeError>(e),
        },
{
    match read_u64(b, pos) {
        Err(e) => Err(e),
        Ok((y, p)) => {
            let v: i64 = if y <= 0x7fff_ffff_ffff_ffff {
                y as i64
            } else {
                ((y as i128) - 0x1_0000_0000_0000_0000) as i64
            };
            Ok((v, p))
        },
    }
}

fn read_bool(b: &[u8], pos: usize) -> (r: Result<(bool, usize), DecodeError>)
    requires
        pos <= b@.len(),
    ensures
        match r {
            Ok(t) => dec_bool(b@, pos as int) == Ok::<(bool, int), DecodeError>((t.0, t.1 as int))
                && t.1 <= b@.len(),
            Err(e) => dec_bool(b@, pos as int) == Err::<(bool, int), DecodeError>(e),
        },
{
    if b.len() - pos >= 1 {
        let byte = b[pos];
        if byte == 0 {
            Ok((false, pos + 1))
        } else if byte == 1 {
            Ok((true, pos + 1))
        } else {
            Err(DecodeError::InvalidField)
        }
    } else {
        Err(DecodeError::Truncated)
    }
}

fn read_bytes(b: &[u8], pos: usize) -> (r: Result<(Vec<u8>, usize), DecodeError>)
    requires
        pos <= b@.len(),
    ensures
        match r {
            Ok(t) => dec_bytes(b@, pos as int) == Ok::<(Seq<u8>, int), DecodeError>(
                (t.0@, t.1 as int),
            ) && t.1 <= b@.len(),
            Err(e) => dec_bytes(b@, pos as int) == Err::<(Seq<u8>, int), DecodeError>(e),
        },
{
    match read_u32(b, pos) {
        Err(e) => Err(e),
        Ok((n, p)) => {
            let n_usize = n as usize;
            if b.len() - p >= n_usize {
                let v = slice_to_vec(slice_subrange(b, p, p + n_usize));
                Ok((v, p + n_usize))
            } else {
                Err(DecodeError::Truncated)
            }
        },
    }
}

fn read_string(b: &[u8], pos: usize) -> (r: Result<(String, usize), DecodeError>)
    requires
        pos <= b@.len(),
    ensures
        match r {
            Ok(t) => dec_str(b@, pos as int) == Ok::<(Seq<char>, int), DecodeError>(
                (t.0@, t.1 as int),
            ) && t.1 <= b@.len(),
            Err(e) => dec_str(b@, pos as int) == Err::<(Seq<char>, int), DecodeError>(e),
        },
{
    match read_bytes(b, pos) {
        Err(e) => Err(e),
        Ok((raw, p)) => {
            let ghost raw_seq = raw@;
            match string_from_utf8(raw) {
                None => Err(DecodeError::InvalidField),
                Some(s) => {
                    proof {
                        encode_utf8_decode_utf8(s@);
                    }
                    Ok((s, p))
                },
            }
        },
    }
}

fn read_instant(b: &[u8], pos: usize) -> (r: Result<(UtcInstant, usize), DecodeError>)
    requires
        pos <= b@.len(),
    ensures
        match r {
            Ok(t) => dec_instant(b@, pos as int) == Ok::<(UtcInstant, int), DecodeError>(
                (t.0, t.1 as int),
            ) && t.1 <= b@.len(),
            Err(e) => dec_instant(b@, pos as int) == Err::<(UtcInstant, int), DecodeError>(e),
        },
{
    match read_i64(b, pos) {
        Err(e) => Err(e),
        Ok((secs, p1)) => match read_u32(b, p1) {
            Err(e) => Err(e),
            Ok((nanos, p2)) => {
                if nanos < 1_000_000_000 {
                    Ok((UtcInstant { secs, nanos }, p2))
                } else {
                    Err(DecodeError::InvalidField)
                }
            },
        },
    }
}

fn read_duration(b: &[u8], pos: usize) -> (r: Result<(PorDuration, usize), DecodeError>)
    requires
        pos <= b@.len(),
    ensures
        match r {
            Ok(t) => dec_duration(b@, pos as int) == Ok::<(PorDuration, int), DecodeError>(
                (t.0, t.1 as int),
            ) && t.1 <= b@.len(),
            Err(e) => dec_duration(b@, pos as int) == Err::<(PorDuration, int), DecodeError>(e),
        },
{
    match read_u64(b, pos) {
        Err(e) => Err(e),
        Ok((secs, p1)) => match read_u32(b, p1) {
            Err(e) => Err(e),
            Ok((nanos, p2)) => {
                if nanos < 1_000_000_000 {
                    Ok((PorDuration { secs, nanos }, p2))
                } else {
                    Err(DecodeError::InvalidField)
                }
            },
        },
    }
}

fn read_request_id(b: &[u8], pos: usize) -> (r: Result<(RequestId, usize), DecodeError>)
    requires
        pos <= b@.len(),
    ensures
        match r {
            Ok(t) => dec_request_id(b@, pos as int) == Ok::<(RequestIdV, int), DecodeError>(
                (t.0@, t.1 as int),
            ) && t.1 <= b@.len(),
            Err(e) => dec_request_id(b@, pos as int) == Err::<(RequestIdV, int), DecodeError>(e),
        },
{
    match read_string(b, pos) {
        Err(e) => Err(e),
        Ok((origin_node, p1)) => match read_instant(b, p1) {
            Err(e) => Err(e),
            Ok((timestamp, p2)) => match read_u32(b, p2) {
                Err(e) => Err(e),
                Ok((sequence, p3)) => Ok((RequestId { origin_node, timestamp, sequence }, p3)),
            },
        },
    }
}

fn read_path(b: &[u8], pos: usize) -> (r: Result<(Vec<String>, usize), DecodeError>)
    requires
        pos <= b@.len(),
    ensures
        match r {
            Ok(t) => dec_path(b@, pos as int) == Ok::<(Seq<Seq<char>>, int), DecodeError>(
                (t.0.deep_view(), t.1 as int),
            ) && t.1 <= b@.len(),
            Err(e) => dec_path(b@, pos as int) == Err::<(Seq<Seq<char>>, int), DecodeError>(e),
        },
{
    match read_u32(b, pos) {
        Err(e) => Err(e),
        Ok((n, start)) => {
            let mut acc: Vec<String> = Vec::new();
            let mut p = start;
            let mut i: u32 = 0;
            proof {
                assert(acc.deep_view() =~= Seq::<Seq<char>>::empty());
            }
            while i < n
                invariant
                    i <= n,
                    p <= b@.len(),
                    dec_u32(b@, pos as int) == Ok::<(u32, int), DecodeError>((n, start as int)),
                    acc.deep_view().len() == i as int,
                    dec_str_list(b@, start as int, n as nat) == (match dec_str_list(
                        b@,
                        p as int,
                        (n - i) as nat,
                    ) {
                        Ok(t) => Ok::<(Seq<Seq<char>>, int), DecodeError>(
                            (acc.deep_view() + t.0, t.1),
                        ),
                        Err(e) => Err::<(Seq<Seq<char>>, int), DecodeError>(e),
                    }),
                decreases n - i,
            {
                match read_string(b, p) {
                    Err(e) => {
                        proof {
                            assert(dec_str_list(b@, p as int, (n - i) as nat) == Err::<
                                (Seq<Seq<char>>, int),
                                DecodeError,
                            >(e));
                        }
                        return Err(e);
                    },
                    Ok((s, p2)) => {
                        let ghost old_acc = acc.deep_view();
                        proof {
                            assert(dec_str_list(b@, p as int, (n - i) as nat) == (match
                                dec_str_list(b@, p2 as int, (n - i - 1) as nat) {
                                Ok(t) => Ok::<(Seq<Seq<char>>, int), DecodeError>(
                                    (seq![s@] + t.0, t.1),
                                ),
                                Err(e) => Err::<(Seq<Seq<char>>, int), DecodeError>(e),
                            }));
                        }
                        acc.push(s);
                        proof {
                            assert(acc.deep_view() =~= old_acc.push(s@));
                            assert forall|t0: Seq<Seq<char>>|
                                old_acc + (seq![s@] + t0) == old_acc.push(s@) + t0 by {
                                assert(old_acc + (seq![s@] + t0) =~= old_acc.push(s@) + t0);
                            }
                        }
                        p = p2;
                        i = i + 1;
                    },
                }
            }
            proof {
                assert(dec_str_list(b@, p as int, (n - i) as nat) == Ok::<
                    (Seq<Seq<char>>, int),
                    DecodeError,
                >((Seq::empty(), p as int)));
                assert(acc.deep_view() + Seq::<Seq<char>>::empty() =~= acc.deep_view());
            }
            Ok((acc, p))
        },
    }
}

fn read_request(b: &[u8], pos: usize) -> (r: Result<(RequestMessage, usize), DecodeError>)
    requires
        pos <= b@.len(),
    ensures
        match r {
            Ok(t) => dec_request(b@, pos as int) == Ok::<(RequestMessageV, int), DecodeError>(
                (t.0@, t.1 as int),
            ) && t.1 <= b@.len(),
            Err(e) => dec_request(b@, pos as int) == Err::<(RequestMessageV, int), DecodeError>(e),
        },
{
    match read_request_id(b, pos) {
        Err(e) => Err(e),
        Ok((request_id, p1)) => match read_string(b, p1) {
            Err(e) => Err(e),
            Ok((payload, p2)) => match read_path(b, p2) {
                Err(e) => Err(e),
                Ok((path, p3)) => match read_duration(b, p3) {
                    Err(e) => Err(e),
                    Ok((total_latency, p4)) => match read_u64(b, p4) {
                        Err(e) => Err(e),
                        Ok((total_cost, p5)) => Ok((
                            RequestMessage { request_id, payload, path, total_latency, total_cost },
                            p5,
                        )),
                    },
                },
            },
        },
    }
}

fn read_response(b: &[u8], pos: usize) -> (r: Result<(ResponseMessage, usize), DecodeError>)
    requires
        pos <= b@.len(),
    ensures
        match r {
            Ok(t) => dec_response(b@, pos as int) == Ok::<(ResponseMessageV, int), DecodeError>(
                (t.0@, t.1 as int),
            ) && t.1 <= b@.len(),
            Err(e) => dec_response(b@, pos as int) == Err::<(ResponseMessageV, int), DecodeError>(
                e,
            ),
        },
{
    match read_request_id(b, pos) {
        Err(e) => Err(e),
        Ok((request_id, p1)) => match read_string(b, p1) {
            Err(e) => Err(e),
            Ok((payload, p2)) => Ok((ResponseMessage { request_id, payload }, p2)),
        },
    }
}

fn read_edge_cut(b: &[u8], pos: usize) -> (r: Result<(EdgeCutMessage, usize), DecodeError>)
    requires
        pos <= b@.len(),
    ensures
        match r {
            Ok(t) => dec_edge_cut(b@, pos as int) == Ok::<(EdgeCutMessageV, int), DecodeError>(
                (t.0@, t.1 as int),
            ) && t.1 <= b@.len(),
            Err(e) => dec_edge_cut(b@, pos as int) == Err::<(EdgeCutMessageV, int), DecodeError>(
                e,
            ),
        },
{
    match read_request_id(b, pos) {
        Err(e) => Err(e),
        Ok((request_id, p1)) => match read_string(b, p1) {
            Err(e) => Err(e),
            Ok((node1, p2)) => match read_string(b, p2) {
                Err(e) => Err(e),
                Ok((node2, p3)) => Ok((EdgeCutMessage { request_id, node1, node2 }, p3)),
            },
        },
    }
}

fn read_sync(b: &[u8], pos: usize) -> (r: Result<(SyncMessage, usize), DecodeError>)
    requires
        pos <= b@.len(),
    ensures
        match r {
            Ok(t) => dec_sync(b@, pos as int) == Ok::<(SyncMessageV, int), DecodeError>(
                (t.0@, t.1 as int),
            ) && t.1 <= b@.len(),
            Err(e) => dec_sync(b@, pos as int) == Err::<(SyncMessageV, int), DecodeError>(e),
        },
{
    match read_request_id(b, pos) {
        Err(e) => Err(e),
        Ok((request_id, p1)) => match read_instant(b, p1) {
            Err(e) => Err(e),
            Ok((timestamp, p2)) => match read_instant(b, p2) {
                Err(e) => Err(e),
                Ok((next_expected, p3)) => match read_bool(b, p3) {
                    Err(e) => Err(e),
                    Ok((has_late_payment, p4)) => Ok((
                        SyncMessage { request_id, timestamp, next_expected, has_late_payment },
                        p4,
                    )),
                },
            },
        },
    }
}

fn read_payment(b: &[u8], pos: usize) -> (r: Result<(PaymentMessage, usize), DecodeError>)
    requires
        pos <= b@.len(),
    ensures
        match r {
            Ok(t) => dec_payment(b@, pos as int) == Ok::<(PaymentMessageV, int), DecodeError>(
                (t.0@, t.1 as int),
            ) && t.1 <= b@.len(),
            Err(e) => dec_payment(b@, pos as int) == Err::<(PaymentMessageV, int), DecodeError>(
                e,
            ),
        },
{
    match read_request_id(b, pos) {
        Err(e) => Err(e),
        Ok((request_id, p1)) => match read_u64(b, p1) {
            Err(e) => Err(e),
            Ok((amount, p2)) => match read_duration(b, p2) {
                Err(e) => Err(e),
                Ok((latency_so_far, p3)) => Ok((
                    PaymentMessage { request_id, amount, latency_so_far },
                    p3,
                )),
            },
        },
    }
}

fn read_ack(b: &[u8], pos: usize) -> (r: Result<(AckMessage, usize), DecodeError>)
    requires
        pos <= b@.len(),
    ensures
        match r {
            Ok(t) => dec_ack(b@, pos as int) == Ok::<(AckMessageV, int), DecodeError>(
                (t.0@, t.1 as int),
            ) && t.1 <= b@.len(),
            Err(e) => dec_ack(b@, pos as int) == Err::<(AckMessageV, int), DecodeError>(e),
        },
{
    match read_request_id(b, pos) {
        Err(e) => Err(e),
        Ok((request_id, p1)) => Ok((AckMessage { request_id }, p1)),
    }
}

fn read_node_id(b: &[u8], pos: usize) -> (r: Result<(NodeIdMessage, usize), DecodeError>)
    requires
        pos <= b@.len(),
    ensures
        match r {
            Ok(t) => dec_node_id(b@, pos as int) == Ok::<(NodeIdMessageV, int), DecodeError>(
                (t.0@, t.1 as int),
            ) && t.1 <= b@.len(),
            Err(e) => dec_node_id(b@, pos as int) == Err::<(NodeIdMessageV, int), DecodeError>(e),
        },
{
    match read_string(b, pos) {
        Err(e) => Err(e),
        Ok((node_name, p1)) => match read_u32(b, p1) {
            Err(e) => Err(e),
            Ok((node_version, p2)) => Ok((NodeIdMessage { node_name, node_version }, p2)),
        },
    }
}

/// Decode a message from the binary channel.  Exactly the byte streams the
/// layout produces are accepted; a short stream, an unknown tag byte, an
/// unparsable field or trailing bytes are rejected with the matching typed
/// error, never mapped to a default message.
pub fn decode(bytes: &[u8]) -> (r: Result<PorMessage, DecodeError>)
    ensures
        match r {
            Ok(m) => spec_decode(bytes@) == Ok::<PorMessageV, DecodeError>(m@),
            Err(e) => spec_decode(bytes@) == Err::<PorMessageV, DecodeError>(e),
        },
{
    if bytes.len() < 1 {
        return Err(DecodeError::Truncated);
    }
    let tag = bytes[0];
    if tag == 1 {
        match read_request(bytes, 1) {
            Err(e) => Err(e),
            Ok((v, p)) => if p == bytes.len() {
                Ok(PorMessage::Request(v))
            } else {
                Err(DecodeError::TrailingBytes)
            },
        }
    } else if tag == 2 {
        match read_response(bytes, 1) {
            Err(e) => Err(e),
            Ok((v, p)) => if p == bytes.len() {
                Ok(PorMessage::Response(v))
            } else {
                Err(DecodeError::TrailingBytes)
            },
        }
    } else if tag == 3 {
        match read_edge_cut(bytes, 1) {
            Err(e) => Err(e),
            Ok((v, p)) => if p == bytes.len() {
                Ok(PorMessage::EdgeCut(v))
            } else {
                Err(DecodeError::TrailingBytes)
            },
        }
    } else if tag == 4 {
        match read_sync(bytes, 1) {
            Err(e) => Err(e),
            Ok((v, p)) => if p == bytes.len() {
                Ok(PorMessage::Sync(v))
            } else {
                Err(DecodeError::TrailingBytes)
            },
        }
    } else if tag == 5 {
        match read_payment(bytes, 1) {
            Err(e) => Err(e),
            Ok((v, p)) => if p == bytes.len() {
                Ok(PorMessage::Payment(v))
            } else {
                Err(DecodeError::TrailingBytes)
            },
        }
    } else if tag == 6 {
        match read_ack(bytes, 1) {
            Err(e) => Err(e),
            Ok((v, p)) => if p == bytes.len() {
                Ok(PorMessage::Ack(v))
            } else {
                Err(DecodeError::TrailingBytes)
            },
        }
    } else if tag == 7 {
        match read_node_id(bytes, 1) {
            Err(e) => Err(e),
            Ok((v, p)) => if p == bytes.len() {
                Ok(PorMessage::NodeId(v))
            } else {
                Err(DecodeError::TrailingBytes)
            },
        }
    } else {
        Err(DecodeError::UnknownTag)
    }
}

// ---------------------------------------------------------------------------
// The degenerate echo-only forms: a bare length-prefixed payload
// ---------------------------------------------------------------------------

/// The parse of a whole bare payload: 32-bit length prefix, the bytes, and
/// nothing after them.
pub open spec fn spec_decode_raw(b: Seq<u8>) -> Result<Seq<u8>, DecodeError> {
    match dec_bytes(b, 0) {
        Err(e) => Err(e),
        Ok((raw, p)) => if p == b.len() {
            Ok(raw)
        } else {
            Err(DecodeError::TrailingBytes)
        },
    }
}

impl PoRRequest {
    /// Serialize: the payload behind its 32-bit length prefix.
    pub fn try_to_vec(&self) -> (r: Result<Vec<u8>, EncodeError>)
        ensures
            match r {
                Ok(bytes) => self@.len() <= 0xffff_ffff && bytes@ == enc_bytes(self@),
                Err(_) => self@.len() > 0xffff_ffff,
            },
    {
        let mut out: Vec<u8> = Vec::new();
        match write_bytes(&mut out, self.payload.as_slice()) {
            Err(e) => Err(e),
            Ok(()) => {
                proof {
                    assert(Seq::<u8>::empty() + enc_bytes(self@) =~= enc_bytes(self@));
                }
                Ok(out)
            },
        }
    }

    /// Deserialize; the whole input must be consumed.
    pub fn try_from_slice(bytes: &[u8]) -> (r: Result<PoRRequest, DecodeError>)
        ensures
            match r {
                Ok(m) => spec_decode_raw(bytes@) == Ok::<Seq<u8>, DecodeError>(m@),
                Err(e) => spec_decode_raw(bytes@) == Err::<Seq<u8>, DecodeError>(e),
            },
    {
        match read_bytes(bytes, 0) {
            Err(e) => Err(e),
            Ok((payload, p)) => if p == bytes.len() {
                Ok(PoRRequest { payload })
            } else {
                Err(DecodeError::TrailingBytes)
            },
        }
    }
}

impl PoRResponse {
    /// Serialize: the payload behind its 32-bit length prefix.
    pub fn try_to_vec(&self) -> (r: Result<Vec<u8>, EncodeError>)
        ensures
            match r {
                Ok(bytes) => self@.len() <= 0xffff_ffff && bytes@ == enc_bytes(self@),
                Err(_) => self@.len() > 0xffff_ffff,
            },
    {
        let mut out: Vec<u8> = Vec::new();
        match write_bytes(&mut out, self.payload.as_slice()) {
            Err(e) => Err(e),
            Ok(()) => {
                proof {
                    assert(Seq::<u8>::empty() + enc_bytes(self@) =~= enc_bytes(self@));
                }
                Ok(out)
            },
        }
    }

    /// Deserialize; the whole input must be consumed.
    pub fn try_from_slice(bytes: &[u8]) -> (r: Result<PoRResponse, DecodeError>)
        ensures
            match r {
                Ok(m) => spec_decode_raw(bytes@) == Ok::<Seq<u8>, DecodeError>(m@),
                Err(e) => spec_decode_raw(bytes@) == Err::<Seq<u8>, DecodeError>(e),
            },
    {
        match read_bytes(bytes, 0) {
            Err(e) => Err(e),
            Ok((payload, p)) => if p == bytes.len() {
                Ok(PoRResponse { payload })
            } else {
                Err(DecodeError::TrailingBytes)
            },
        }
    }
}

/// The round-trip law of the bare payload forms: deserializing a
/// serialization gives the payload back.
pub proof fn lemma_raw_round_trip(payload: Seq<u8>)
    requires
        payload.len() <= 0xffff_ffff,
    ensures
        spec_decode_raw(enc_bytes(payload)) == Ok::<Seq<u8>, DecodeError>(payload),
{
    lemma_auto_spec_u32_to_from_le_bytes();
    lemma_dec_bytes_exact(Seq::empty(), payload, Seq::empty());
    assert(Seq::<u8>::empty() + enc_bytes(payload) + Seq::<u8>::empty() =~= enc_bytes(payload));
}

// ---------------------------------------------------------------------------
// The round-trip law: decoding an encoding gives the message back
// ---------------------------------------------------------------------------

proof fn lemma_dec_u32_exact(pre: Seq<u8>, v: u32, suf: Seq<u8>)
    ensures
        dec_u32(pre + spec_u32_to_le_bytes(v) + suf, pre.len() as int) == Ok::<
            (u32, int),
            DecodeError,
        >((v, pre.len() as int + 4)),
{
    lemma_auto_spec_u32_to_from_le_bytes();
    let b = pre + spec_u32_to_le_bytes(v) + suf;
    assert(b.subrange(pre.len() as int, pre.len() as int + 4) =~= spec_u32_to_le_bytes(v));
}

proof fn lemma_dec_u64_exact(pre: Seq<u8>, v: u64, suf: Seq<u8>)
    ensures
        dec_u64(pre + spec_u64_to_le_bytes(v) + suf, pre.len() as int) == Ok::<
            (u64, int),
            DecodeError,
        >((v, pre.len() as int + 8)),
{
    lemma_auto_spec_u64_to_from_le_bytes();
    let b = pre + spec_u64_to_le_bytes(v) + suf;
    assert(b.subrange(pre.len() as int, pre.len() as int + 8) =~= spec_u64_to_le_bytes(v));
}

proof fn lemma_dec_i64_exact(pre: Seq<u8>, v: i64, suf: Seq<u8>)
    ensures
        dec_i64(pre + spec_u64_to_le_bytes(i64_bits(v)) + suf, pre.len() as int) == Ok::<
            (i64, int),
            DecodeError,
        >((v, pre.len() as int + 8)),
{
    lemma_dec_u64_exact(pre, i64_bits(v), suf);
    assert(i64_of_bits(i64_bits(v)) == v);
}

proof fn lemma_dec_bool_exact(pre: Seq<u8>, v: bool, suf: Seq<u8>)
    ensures
        dec_bool(pre + enc_bool(v) + suf, pre.len() as int) == Ok::<(bool, int), DecodeError>(
            (v, pre.len() as int + 1),
        ),
{
    let b = pre + enc_bool(v) + suf;
    assert(b[pre.len() as int] == (if v { 1u8 } else { 0u8 }));
}

proof fn lemma_dec_bytes_exact(pre: Seq<u8>, raw: Seq<u8>, suf: Seq<u8>)
    requires
        raw.len() <= 0xffff_ffff,
    ensures
        dec_bytes(pre + enc_bytes(raw) + suf, pre.len() as int) == Ok::<
            (Seq<u8>, int),
            DecodeError,
        >((raw, pre.len() as int + 4 + raw.len())),
{
    lemma_auto_spec_u32_to_from_le_bytes();
    lemma_auto_spec_u64_to_from_le_bytes();
    let b = pre + enc_bytes(raw) + suf;
    assert(b =~= pre + spec_u32_to_le_bytes(raw.len() as u32) + (raw + suf));
    lemma_dec_u32_exact(pre, raw.len() as u32, raw + suf);
    assert(b.subrange(pre.len() as int + 4, pre.len() as int + 4 + raw.len()) =~= raw);
}

proof fn lemma_dec_str_exact(pre: Seq<u8>, s: Seq<char>, suf: Seq<u8>)
    requires
        str_encodable(s),
    ensures
        dec_str(pre + enc_str(s) + suf, pre.len() as int) == Ok::<(Seq<char>, int), DecodeError>(
            (s, pre.len() as int + enc_str(s).len()),
        ),
        enc_str(s).len() == 4 + encode_utf8(s).len(),
{
    lemma_auto_spec_u32_to_from_le_bytes();
    lemma_auto_spec_u64_to_from_le_bytes();
    lemma_dec_bytes_exact(pre, encode_utf8(s), suf);
    encode_utf8_valid_utf8(s);
    encode_utf8_decode_utf8(s);
}

proof fn lemma_dec_instant_exact(pre: Seq<u8>, v: UtcInstant, suf: Seq<u8>)
    requires
        v.wf(),
    ensures
        dec_instant(pre + enc_instant(v) + suf, pre.len() as int) == Ok::<
            (UtcInstant, int),
            DecodeError,
        >((v, pre.len() as int + 12)),
{
    lemma_auto_spec_u32_to_from_le_bytes();
    lemma_auto_spec_u64_to_from_le_bytes();
    let b = pre + enc_instant(v) + suf;
    assert(b =~= pre + spec_u64_to_le_bytes(i64_bits(v.secs)) + (spec_u32_to_le_bytes(v.nanos)
        + suf));
    lemma_dec_i64_exact(pre, v.secs, spec_u32_to_le_bytes(v.nanos) + suf);
    let pre2 = pre + spec_u64_to_le_bytes(i64_bits(v.secs));
    assert(b =~= pre2 + spec_u32_to_le_bytes(v.nanos) + suf);
    lemma_dec_u32_exact(pre2, v.nanos, suf);
}

proof fn lemma_dec_duration_exact(pre: Seq<u8>, v: PorDuration, suf: Seq<u8>)
    requires
        v.wf(),
    ensures
        dec_duration(pre + enc_duration(v) + suf, pre.len() as int) == Ok::<
            (PorDuration, int),
            DecodeError,
        >((v, pre.len() as int + 12)),
{
    lemma_auto_spec_u32_to_from_le_bytes();
    lemma_auto_spec_u64_to_from_le_bytes();
    let b = pre + enc_duration(v) + suf;
    assert(b =~= pre + spec_u64_to_le_bytes(v.secs) + (spec_u32_to_le_bytes(v.nanos) + suf));
    lemma_dec_u64_exact(pre, v.secs, spec_u32_to_le_bytes(v.nanos) + suf);
    let pre2 = pre + spec_u64_to_le_bytes(v.secs);
    assert(b =~= pre2 + spec_u32_to_le_bytes(v.nanos) + suf);
    lemma_dec_u32_exact(pre2, v.nanos, suf);
}

proof fn lemma_dec_request_id_exact(pre: Seq<u8>, r: RequestIdV, suf: Seq<u8>)
    requires
        r.wf(),
        request_id_encodable(r),
    ensures
        dec_request_id(pre + enc_request_id(r) + suf, pre.len() as int) == Ok::<
            (RequestIdV, int),
            DecodeError,
        >((r, pre.len() as int + enc_request_id(r).len())),
{
    lemma_auto_spec_u32_to_from_le_bytes();
    lemma_auto_spec_u64_to_from_le_bytes();
    let b = pre + enc_request_id(r) + suf;
    assert(b =~= pre + enc_str(r.origin_node) + ((enc_instant(r.timestamp)
        + spec_u32_to_le_bytes(r.sequence)) + suf));
    lemma_dec_str_exact(
        pre,
        r.origin_node,
        (enc_instant(r.timestamp) + spec_u32_to_le_bytes(r.sequence)) + suf,
    );
    let pre2 = pre + enc_str(r.origin_node);
    assert(b =~= pre2 + enc_instant(r.timestamp) + (spec_u32_to_le_bytes(r.sequence) + suf));
    lemma_dec_instant_exact(pre2, r.timestamp, spec_u32_to_le_bytes(r.sequence) + suf);
    let pre3 = pre2 + enc_instant(r.timestamp);
    assert(b =~= pre3 + spec_u32_to_le_bytes(r.sequence) + suf);
    lemma_dec_u32_exact(pre3, r.sequence, suf);
}

proof fn lemma_dec_str_list_exact(pre: Seq<u8>, p: Seq<Seq<char>>, suf: Seq<u8>)
    requires
        forall|i: int| 0 <= i < p.len() ==> str_encodable(#[trigger] p[i]),
    ensures
        dec_str_list(pre + enc_str_list(p) + suf, pre.len() as int, p.len() as nat) == Ok::<
            (Seq<Seq<char>>, int),
            DecodeError,
        >((p, pre.len() as int + enc_str_list(p).len())),
    decreases p.len(),
{
    lemma_auto_spec_u32_to_from_le_bytes();
    lemma_auto_spec_u64_to_from_le_bytes();
    let b = pre + enc_str_list(p) + suf;
    if p.len() == 0 {
        assert(enc_str_list(p) == Seq::<u8>::empty());
        assert(dec_str_list(b, pre.len() as int, 0nat) == Ok::<(Seq<Seq<char>>, int), DecodeError>(
            (Seq::empty(), pre.len() as int),
        ));
        assert(p =~= Seq::<Seq<char>>::empty());
    } else {
        assert(enc_str_list(p) == enc_str(p[0]) + enc_str_list(p.drop_first()));
        assert(b =~= pre + enc_str(p[0]) + (enc_str_list(p.drop_first()) + suf));
        lemma_dec_str_exact(pre, p[0], enc_str_list(p.drop_first()) + suf);
        let pre2 = pre + enc_str(p[0]);
        assert(b =~= pre2 + enc_str_list(p.drop_first()) + suf);
        lemma_dec_str_list_exact(pre2, p.drop_first(), suf);
        assert(seq![p[0]] + p.drop_first() =~= p);
        assert((p.len() - 1) as nat == p.drop_first().len() as nat);
    }
}

proof fn lemma_dec_path_exact(pre: Seq<u8>, p: Seq<Seq<char>>, suf: Seq<u8>)
    requires
        path_encodable(p),
    ensures
        dec_path(pre + enc_path(p) + suf, pre.len() as int) == Ok::<
            (Seq<Seq<char>>, int),
            DecodeError,
        >((p, pre.len() as int + enc_path(p).len())),
{
    lemma_auto_spec_u32_to_from_le_bytes();
    lemma_auto_spec_u64_to_from_le_bytes();
    let b = pre + enc_path(p) + suf;
    assert(b =~= pre + spec_u32_to_le_bytes(p.len() as u32) + (enc_str_list(p) + suf));
    lemma_dec_u32_exact(pre, p.len() as u32, enc_str_list(p) + suf);
    let pre2 = pre + spec_u32_to_le_bytes(p.len() as u32);
    assert(b =~= pre2 + enc_str_list(p) + suf);
    lemma_dec_str_list_exact(pre2, p, suf);
    assert((p.len() as u32) as nat == p.len() as nat);
}

// ---------------------------------------------------------------------------
// The soundness law: whatever decodes was an exact encoding
// ---------------------------------------------------------------------------

proof fn lemma_sound_u32(b: Seq<u8>, pos: int, v: u32, p: int)
    requires
        0 <= pos,
        dec_u32(b, pos) == Ok::<(u32, int), DecodeError>((v, p)),
    ensures
        p == pos + 4 <= b.len(),
        b.subrange(pos, p) == spec_u32_to_le_bytes(v),
{
    lemma_auto_spec_u32_to_from_le_bytes();
}

proof fn lemma_sound_u64(b: Seq<u8>, pos: int, v: u64, p: int)
    requires
        0 <= pos,
        dec_u64(b, pos) == Ok::<(u64, int), DecodeError>((v, p)),
    ensures
        p == pos + 8 <= b.len(),
        b.subrange(pos, p) == spec_u64_to_le_bytes(v),
{
    lemma_auto_spec_u64_to_from_le_bytes();
}

proof fn lemma_sound_i64(b: Seq<u8>, pos: int, v: i64, p: int)
    requires
        0 <= pos,
        dec_i64(b, pos) == Ok::<(i64, int), DecodeError>((v, p)),
    ensures
        p == pos + 8 <= b.len(),
        b.subrange(pos, p) == spec_u64_to_le_bytes(i64_bits(v)),
{
    let y = spec_u64_from_le_bytes(b.subrange(pos, pos + 8));
    lemma_sound_u64(b, pos, y, p);
    assert(i64_bits(i64_of_bits(y)) == y);
}

proof fn lemma_sound_bool(b: Seq<u8>, pos: int, v: bool, p: int)
    requires
        0 <= pos,
        dec_bool(b, pos) == Ok::<(bool, int), DecodeError>((v, p)),
    ensures
        p == pos + 1 <= b.len(),
        b.subrange(pos, p) == enc_bool(v),
{
    assert(b.subrange(pos, p) =~= enc_bool(v));
}

proof fn lemma_sound_bytes(b: Seq<u8>, pos: int, raw: Seq<u8>, p: int)
    requires
        0 <= pos,
        dec_bytes(b, pos) == Ok::<(Seq<u8>, int), DecodeError>((raw, p)),
    ensures
        pos <= p <= b.len(),
        raw.len() <= 0xffff_ffff,
        p == pos + 4 + raw.len(),
        b.subrange(pos, p) == enc_bytes(raw),
{
    lemma_auto_spec_u32_to_from_le_bytes();
    let n = spec_u32_from_le_bytes(b.subrange(pos, pos + 4));
    lemma_sound_u32(b, pos, n, pos + 4);
    assert(raw =~= b.subrange(pos + 4, pos + 4 + n));
    assert((raw.len() as u32) == n);
    assert(b.subrange(pos, p) =~= spec_u32_to_le_bytes(n) + raw);
}

proof fn lemma_sound_str(b: Seq<u8>, pos: int, s: Seq<char>, p: int)
    requires
        0 <= pos,
        dec_str(b, pos) == Ok::<(Seq<char>, int), DecodeError>((s, p)),
    ensures
        pos <= p <= b.len(),
        str_encodable(s),
        p == pos + enc_str(s).len(),
        b.subrange(pos, p) == enc_str(s),
{
    let raw = dec_bytes(b, pos)->Ok_0.0;
    lemma_sound_bytes(b, pos, raw, p);
    vstd::utf8::decode_utf8_encode_utf8(raw);
    assert(encode_utf8(s) == raw);
}

proof fn lemma_sound_instant(b: Seq<u8>, pos: int, v: UtcInstant, p: int)
    requires
        0 <= pos,
        dec_instant(b, pos) == Ok::<(UtcInstant, int), DecodeError>((v, p)),
    ensures
        pos <= p <= b.len(),
        v.wf(),
        p == pos + 12,
        b.subrange(pos, p) == enc_instant(v),
{
    lemma_sound_i64(b, pos, v.secs, pos + 8);
    lemma_sound_u32(b, pos + 8, v.nanos, p);
    assert(b.subrange(pos, p) =~= b.subrange(pos, pos + 8) + b.subrange(pos + 8, p));
}

proof fn lemma_sound_duration(b: Seq<u8>, pos: int, v: PorDuration, p: int)
    requires
        0 <= pos,
        dec_duration(b, pos) == Ok::<(PorDuration, int), DecodeError>((v, p)),
    ensures
        pos <= p <= b.len(),
        v.wf(),
        p == pos + 12,
        b.subrange(pos, p) == enc_duration(v),
{
    lemma_sound_u64(b, pos, v.secs, pos + 8);
    lemma_sound_u32(b, pos + 8, v.nanos, p);
    assert(b.subrange(pos, p) =~= b.subrange(pos, pos + 8) + b.subrange(pos + 8, p));
}

proof fn lemma_sound_request_id(b: Seq<u8>, pos: int, r: RequestIdV, p: int)
    requires
        0 <= pos,
        dec_request_id(b, pos) == Ok::<(RequestIdV, int), DecodeError>((r, p)),
    ensures
        pos <= p <= b.len(),
        r.wf(),
        request_id_encodable(r),
        p == pos + enc_request_id(r).len(),
        b.subrange(pos, p) == enc_request_id(r),
{
    let p1 = dec_str(b, pos)->Ok_0.1;
    let p2 = dec_instant(b, p1)->Ok_0.1;
    lemma_sound_str(b, pos, r.origin_node, p1);
    lemma_sound_instant(b, p1, r.timestamp, p2);
    lemma_sound_u32(b, p2, r.sequence, p);
    assert(b.subrange(pos, p) =~= b.subrange(pos, p1) + b.subrange(p1, p2) + b.subrange(p2, p));
}

proof fn lemma_sound_str_list(b: Seq<u8>, pos: int, n: nat, p: Seq<Seq<char>>, end: int)
    requires
        0 <= pos <= b.len(),
        dec_str_list(b, pos, n) == Ok::<(Seq<Seq<char>>, int), DecodeError>((p, end)),
    ensures
        pos <= end <= b.len(),
        p.len() == n,
        forall|i: int| 0 <= i < p.len() ==> str_encodable(#[trigger] p[i]),
        end == pos + enc_str_list(p).len(),
        b.subrange(pos, end) == enc_str_list(p),
    decreases n,
{
    if n == 0 {
        assert(p =~= Seq::<Seq<char>>::empty());
        assert(b.subrange(pos, pos) =~= enc_str_list(p));
    } else {
        let s = dec_str(b, pos)->Ok_0.0;
        let p1 = dec_str(b, pos)->Ok_0.1;
        let rest = dec_str_list(b, p1, (n - 1) as nat)->Ok_0.0;
        lemma_sound_str(b, pos, s, p1);
        lemma_sound_str_list(b, p1, (n - 1) as nat, rest, end);
        assert(p == seq![s] + rest);
        assert(p[0] == s);
        assert(p.drop_first() =~= rest);
        assert(enc_str_list(p) == enc_str(s) + enc_str_list(rest));
        assert(b.subrange(pos, end) =~= b.subrange(pos, p1) + b.subrange(p1, end));
        assert forall|i: int| 0 <= i < p.len() implies str_encodable(#[trigger] p[i]) by {
            if i >= 1 {
                assert(p[i] == rest[i - 1]);
            }
        }
    }
}

proof fn lemma_sound_path(b: Seq<u8>, pos: int, p: Seq<Seq<char>>, end: int)
    requires
        0 <= pos,
        dec_path(b, pos) == Ok::<(Seq<Seq<char>>, int), DecodeError>((p, end)),
    ensures
        pos <= end <= b.len(),
        path_encodable(p),
        end == pos + enc_path(p).len(),
        b.subrange(pos, end) == enc_path(p),
{
    lemma_auto_spec_u32_to_from_le_bytes();
    let n = spec_u32_from_le_bytes(b.subrange(pos, pos + 4));
    lemma_sound_u32(b, pos, n, pos + 4);
    lemma_sound_str_list(b, pos + 4, n as nat, p, end);
    assert((p.len() as u32) == n);
    assert(b.subrange(pos, end) =~= b.subrange(pos, pos + 4) + b.subrange(pos + 4, end));
}

/// The binary codec's soundness law: a byte stream that decodes at all is
/// the exact encoding of the well-formed message it decodes to — nothing
/// else is accepted.
pub proof fn lemma_binary_sound(b: Seq<u8>, m: PorMessageV)
    requires
        spec_decode(b) == Ok::<PorMessageV, DecodeError>(m),
    ensures
        m.wf(),
        encodable(m),
        spec_encode(m) == b,
{
    lemma_auto_spec_u32_to_from_le_bytes();
    lemma_auto_spec_u64_to_from_le_bytes();
    assert(b.len() >= 1);
    match m {
        PorMessageV::Request(v) => {
            let p1 = dec_request_id(b, 1)->Ok_0.1;
            let p2 = dec_str(b, p1)->Ok_0.1;
            let p3 = dec_path(b, p2)->Ok_0.1;
            let p4 = dec_duration(b, p3)->Ok_0.1;
            lemma_sound_request_id(b, 1, v.request_id, p1);
            lemma_sound_str(b, p1, v.payload, p2);
            lemma_sound_path(b, p2, v.path, p3);
            lemma_sound_duration(b, p3, v.total_latency, p4);
            lemma_sound_u64(b, p4, v.total_cost, b.len() as int);
            assert(b =~= seq![b[0]] + b.subrange(1, p1) + b.subrange(p1, p2) + b.subrange(p2, p3)
                + b.subrange(p3, p4) + b.subrange(p4, b.len() as int));
            assert(spec_encode(m) =~= b);
        },
        PorMessageV::Response(v) => {
            let p1 = dec_request_id(b, 1)->Ok_0.1;
            lemma_sound_request_id(b, 1, v.request_id, p1);
            lemma_sound_str(b, p1, v.payload, b.len() as int);
            assert(b =~= seq![b[0]] + b.subrange(1, p1) + b.subrange(p1, b.len() as int));
            assert(spec_encode(m) =~= b);
        },
        PorMessageV::EdgeCut(v) => {
            let p1 = dec_request_id(b, 1)->Ok_0.1;
            let p2 = dec_str(b, p1)->Ok_0.1;
            lemma_sound_request_id(b, 1, v.request_id, p1);
            lemma_sound_str(b, p1, v.node1, p2);
            lemma_sound_str(b, p2, v.node2, b.len() as int);
            assert(b =~= seq![b[0]] + b.subrange(1, p1) + b.subrange(p1, p2) + b.subrange(
                p2,
                b.len() as int,
            ));
            assert(spec_encode(m) =~= b);
        },
        PorMessageV::Sync(v) => {
            let p1 = dec_request_id(b, 1)->Ok_0.1;
            let p2 = dec_instant(b, p1)->Ok_0.1;
            let p3 = dec_instant(b, p2)->Ok_0.1;
            lemma_sound_request_id(b, 1, v.request_id, p1);
            lemma_sound_instant(b, p1, v.timestamp, p2);
            lemma_sound_instant(b, p2, v.next_expected, p3);
            lemma_sound_bool(b, p3, v.has_late_payment, b.len() as int);
            assert(b =~= seq![b[0]] + b.subrange(1, p1) + b.subrange(p1, p2) + b.subrange(p2, p3)
                + b.subrange(p3, b.len() as int));
            assert(spec_encode(m) =~= b);
        },
        PorMessageV::Payment(v) => {
            let p1 = dec_request_id(b, 1)->Ok_0.1;
            let p2 = dec_u64(b, p1)->Ok_0.1;
            lemma_sound_request_id(b, 1, v.request_id, p1);
            lemma_sound_u64(b, p1, v.amount, p2);
            lemma_sound_duration(b, p2, v.latency_so_far, b.len() as int);
            assert(b =~= seq![b[0]] + b.subrange(1, p1) + b.subrange(p1, p2) + b.subrange(
                p2,
                b.len() as int,
            ));
            assert(spec_encode(m) =~= b);
        },
        PorMessageV::Ack(v) => {
            lemma_sound_request_id(b, 1, v.request_id, b.len() as int);
            assert(b =~= seq![b[0]] + b.subrange(1, b.len() as int));
            assert(spec_encode(m) =~= b);
        },
        PorMessageV::NodeId(v) => {
            let p1 = dec_str(b, 1)->Ok_0.1;
            lemma_sound_str(b, 1, v.node_name, p1);
            lemma_sound_u32(b, p1, v.node_version, b.len() as int);
            assert(b =~= seq![b[0]] + b.subrange(1, p1) + b.subrange(p1, b.len() as int));
            assert(spec_encode(m) =~= b);
        },
    }
}

/// The binary codec's round-trip law: decoding the encoding of any
/// well-formed message whose lengths fit the format gives exactly that
/// message back — every one of the seven variants keeps its identity and
/// every field its value.
#[verifier::rlimit(50)]
pub proof fn lemma_binary_round_trip(m: PorMessageV)
    requires
        m.wf(),
        encodable(m),
    ensures
        spec_decode(spec_encode(m)) == Ok::<PorMessageV, DecodeError>(m),
{
    lemma_auto_spec_u32_to_from_le_bytes();
    lemma_auto_spec_u64_to_from_le_bytes();
    let b = spec_encode(m);
    let empty = Seq::<u8>::empty();
    match m {
        PorMessageV::Request(v) => {
            let e1 = enc_request_id(v.request_id);
            let e2 = enc_str(v.payload);
            let e3 = enc_path(v.path);
            let e4 = enc_duration(v.total_latency);
            let e5 = spec_u64_to_le_bytes(v.total_cost);
            assert(b[0] == 1);
            assert(b =~= seq![1u8] + e1 + (e2 + e3 + e4 + e5));
            lemma_dec_request_id_exact(seq![1u8], v.request_id, e2 + e3 + e4 + e5);
            let pre2 = seq![1u8] + e1;
            assert(b =~= pre2 + e2 + (e3 + e4 + e5));
            lemma_dec_str_exact(pre2, v.payload, e3 + e4 + e5);
            let pre3 = pre2 + e2;
            assert(b =~= pre3 + e3 + (e4 + e5));
            lemma_dec_path_exact(pre3, v.path, e4 + e5);
            let pre4 = pre3 + e3;
            assert(b =~= pre4 + e4 + e5);
            lemma_dec_duration_exact(pre4, v.total_latency, e5);
            let pre5 = pre4 + e4;
            assert(b =~= pre5 + e5 + empty);
            lemma_dec_u64_exact(pre5, v.total_cost, empty);
            assert(b.len() == pre5.len() + 8);
        },
        PorMessageV::Response(v) => {
            let e1 = enc_request_id(v.request_id);
            let e2 = enc_str(v.payload);
            assert(b[0] == 2);
            assert(b =~= seq![2u8] + e1 + e2);
            lemma_dec_request_id_exact(seq![2u8], v.request_id, e2);
            let pre2 = seq![2u8] + e1;
            assert(b =~= pre2 + e2 + empty);
            lemma_dec_str_exact(pre2, v.payload, empty);
            assert(b.len() == pre2.len() + e2.len());
        },
        PorMessageV::EdgeCut(v) => {
            let e1 = enc_request_id(v.request_id);
            let e2 = enc_str(v.node1);
            let e3 = enc_str(v.node2);
            assert(b[0] == 3);
            assert(b =~= seq![3u8] + e1 + (e2 + e3));
            lemma_dec_request_id_exact(seq![3u8], v.request_id, e2 + e3);
            let pre2 = seq![3u8] + e1;
            assert(b =~= pre2 + e2 + e3);
            lemma_dec_str_exact(pre2, v.node1, e3);
            let pre3 = pre2 + e2;
            assert(b =~= pre3 + e3 + empty);
            lemma_dec_str_exact(pre3, v.node2, empty);
            assert(b.len() == pre3.len() + e3.len());
        },
        PorMessageV::Sync(v) => {
            let e1 = enc_request_id(v.request_id);
            let e2 = enc_instant(v.timestamp);
            let e3 = enc_instant(v.next_expected);
            let e4 = enc_bool(v.has_late_payment);
            assert(b[0] == 4);
            assert(b =~= seq![4u8] + e1 + (e2 + e3 + e4));
            lemma_dec_request_id_exact(seq![4u8], v.request_id, e2 + e3 + e4);
            let pre2 = seq![4u8] + e1;
            assert(b =~= pre2 + e2 + (e3 + e4));
            lemma_dec_instant_exact(pre2, v.timestamp, e3 + e4);
            let pre3 = pre2 + e2;
            assert(b =~= pre3 + e3 + e4);
            lemma_dec_instant_exact(pre3, v.next_expected, e4);
            let pre4 = pre3 + e3;
            assert(b =~= pre4 + e4 + empty);
            lemma_dec_bool_exact(pre4, v.has_late_payment, empty);
            assert(b.len() == pre4.len() + 1);
        },
        PorMessageV::Payment(v) => {
            let e1 = enc_request_id(v.request_id);
            let e2 = spec_u64_to_le_bytes(v.amount);
            let e3 = enc_duration(v.latency_so_far);
            assert(b[0] == 5);
            assert(b =~= seq![5u8] + e1 + (e2 + e3));
            lemma_dec_request_id_exact(seq![5u8], v.request_id, e2 + e3);
            let pre2 = seq![5u8] + e1;
            assert(b =~= pre2 + e2 + e3);
            lemma_dec_u64_exact(pre2, v.amount, e3);
            let pre3 = pre2 + e2;
            assert(b =~= pre3 + e3 + empty);
            lemma_dec_duration_exact(pre3, v.latency_so_far, empty);
            assert(b.len() == pre3.len() + 12);
        },
        PorMessageV::Ack(v) => {
            let e1 = enc_request_id(v.request_id);
            assert(b[0] == 6);
            assert(b =~= seq![6u8] + e1 + empty);
            lemma_dec_request_id_exact(seq![6u8], v.request_id, empty);
            assert(b.len() == 1 + e1.len());
        },
        PorMessageV::NodeId(v) => {
            let e1 = enc_str(v.node_name);
            let e2 = spec_u32_to_le_bytes(v.node_version);
            assert(b[0] == 7);
            assert(b =~= seq![7u8] + e1 + e2);
            lemma_dec_str_exact(seq![7u8], v.node_name, e2);
            let pre2 = seq![7u8] + e1;
            assert(b =~= pre2 + e2 + empty);
            lemma_dec_u32_exact(pre2, v.node_version, empty);
            assert(b.len() == pre2.len() + 4);
        },
    }
}

} // verus!
