//! Canonical byte serialization of intent messages and signed envelopes.
//!
//! The signed byte string is always the canonical serialization of the full
//! intent message (scope, then timestamp, then payload), never of the payload
//! alone: a signature produced for one purpose or moment can therefore never
//! be replayed as another. The same format also serves as the cache's stored
//! representation of an envelope.
//!
//! Layout: the scope is one tag byte; a `u64` is eight little-endian bytes;
//! an `i64` is a sign byte followed by the magnitude (`0`: the value itself,
//! `1`: `-(v + 1)`); a string is its UTF-8 byte length as a `u64` followed by
//! the bytes; a byte string is its length followed by the bytes.

use vstd::prelude::*;
use vstd::bytes::{
    spec_u64_from_le_bytes, spec_u64_to_le_bytes, lemma_auto_spec_u64_to_from_le_bytes,
    u64_from_le_bytes, u64_to_le_bytes,
};
use vstd::utf8::{
    decode_utf8, encode_utf8, encode_utf8_decode_utf8, encode_utf8_valid_utf8, valid_utf8,
};
use vstd::string::StrSliceExecFns;
use crate::message::{EnvelopeView, IntentMessage, IntentScope, MessageView, MetricsView,
    MyMetrics, SignedEnvelope};

verus! {

pub const I64_MAX_AS_U64: u64 = 0x7fff_ffff_ffff_ffff;

// ---------------------------------------------------------------------------
// Specification-level encoding
// ---------------------------------------------------------------------------

pub open spec fn enc_u64(x: u64) -> Seq<u8> {
    spec_u64_to_le_bytes(x)
}

pub open spec fn enc_i64(v: i64) -> Seq<u8> {
    if v >= 0 {
        seq![0u8] + spec_u64_to_le_bytes(v as u64)
    } else {
        seq![1u8] + spec_u64_to_le_bytes((-(v as int) - 1) as u64)
    }
}

pub open spec fn enc_bytes(b: Seq<u8>) -> Seq<u8>
    recommends
        b.len() <= u64::MAX,
{
    enc_u64(b.len() as u64) + b
}

pub open spec fn enc_str(s: Seq<char>) -> Seq<u8>
    recommends
        encode_utf8(s).len() <= u64::MAX,
{
    enc_bytes(encode_utf8(s))
}

pub open spec fn scope_tag(sc: IntentScope) -> u8 {
    match sc {
        IntentScope::ProcessData => 0u8,
        IntentScope::Attestation => 1u8,
    }
}

pub open spec fn enc_metrics(v: MetricsView) -> Seq<u8> {
    enc_str(v.title) + enc_i64(v.rating_centi) + enc_i64(v.rank) + enc_i64(v.members)
        + enc_str(v.queried_name)
}

pub open spec fn enc_message(m: MessageView) -> Seq<u8> {
    seq![scope_tag(m.scope)] + enc_u64(m.timestamp_ms) + enc_metrics(m.payload)
}

pub open spec fn enc_envelope(e: EnvelopeView) -> Seq<u8> {
    enc_message(e.response) + enc_bytes(e.signature)
}

/// The byte lengths inside the view fit the length prefixes. Every envelope
/// that was actually built in memory satisfies this.
pub open spec fn metrics_fits(v: MetricsView) -> bool {
    &&& encode_utf8(v.title).len() <= u64::MAX
    &&& encode_utf8(v.queried_name).len() <= u64::MAX
}

pub open spec fn envelope_fits(e: EnvelopeView) -> bool {
    &&& metrics_fits(e.response.payload)
    &&& e.signature.len() <= u64::MAX
}

// ---------------------------------------------------------------------------
// Specification-level decoding (each step consumes a prefix, yields the rest)
// ---------------------------------------------------------------------------

pub open spec fn dec_u64(s: Seq<u8>) -> Option<(u64, Seq<u8>)> {
    if s.len() >= 8 {
        Some((spec_u64_from_le_bytes(s.take(8)), s.skip(8)))
    } else {
        None
    }
}

pub open spec fn dec_i64(s: Seq<u8>) -> Option<(i64, Seq<u8>)> {
    if s.len() < 1 {
        None
    } else {
        match dec_u64(s.skip(1)) {
            Some((m, rest)) => {
                if m > I64_MAX_AS_U64 {
                    None
                } else if s[0] == 0u8 {
                    Some((m as i64, rest))
                } else if s[0] == 1u8 {
                    Some(((-(m as int) - 1) as i64, rest))
                } else {
                    None
                }
            },
            None => None,
        }
    }
}

pub open spec fn dec_bytes(s: Seq<u8>) -> Option<(Seq<u8>, Seq<u8>)> {
    match dec_u64(s) {
        Some((n, rest)) => {
            if rest.len() >= n {
                Some((rest.take(n as int), rest.skip(n as int)))
            } else {
                None
            }
        },
        None => None,
    }
}

pub open spec fn dec_str(s: Seq<u8>) -> Option<(Seq<char>, Seq<u8>)> {
    match dec_bytes(s) {
        Some((b, rest)) => {
            if valid_utf8(b) {
                Some((decode_utf8(b), rest))
            } else {
                None
            }
        },
        None => None,
    }
}

pub open spec fn dec_scope(s: Seq<u8>) -> Option<(IntentScope, Seq<u8>)> {
    if s.len() < 1 {
        None
    } else if s[0] == 0u8 {
        Some((IntentScope::ProcessData, s.skip(1)))
    } else if s[0] == 1u8 {
        Some((IntentScope::Attestation, s.skip(1)))
    } else {
        None
    }
}

pub open spec fn dec_metrics(s: Seq<u8>) -> Option<(MetricsView, Seq<u8>)> {
    match dec_str(s) {
        Some((title, s1)) => match dec_i64(s1) {
            Some((rating, s2)) => match dec_i64(s2) {
                Some((rank, s3)) => match dec_i64(s3) {
                    Some((members, s4)) => match dec_str(s4) {
                        Some((queried, s5)) => Some(
                            (
                                MetricsView {
                                    title,
                                    rating_centi: rating,
                                    rank,
                                    members,
                                    queried_name: queried,
                                },
                                s5,
                            ),
                        ),
                        None => None,
                    },
                    None => None,
                },
                None => None,
            },
            None => None,
        },
        None => None,
    }
}

pub open spec fn dec_message(s: Seq<u8>) -> Option<(MessageView, Seq<u8>)> {
    match dec_scope(s) {
        Some((scope, s1)) => match dec_u64(s1) {
            Some((ts, s2)) => match dec_metrics(s2) {
                Some((payload, s3)) => Some(
                    (MessageView { scope, timestamp_ms: ts, payload }, s3),
                ),
                None => None,
            },
            None => None,
        },
        None => None,
    }
}

/// The full decoder: an envelope followed by nothing.
pub open spec fn dec_envelope(s: Seq<u8>) -> Option<EnvelopeView> {
    match dec_message(s) {
        Some((m, s1)) => match dec_bytes(s1) {
            Some((sig, s2)) => {
                if s2.len() == 0 {
                    Some(EnvelopeView { response: m, signature: sig })
                } else {
                    None
                }
            },
            None => None,
        },
        None => None,
    }
}

// ---------------------------------------------------------------------------
// Round-trip lemmas: decoding what was encoded yields the original value
// ---------------------------------------------------------------------------

pub proof fn lemma_dec_u64(x: u64, rest: Seq<u8>)
    ensures
        dec_u64(enc_u64(x) + rest) == Some((x, rest)),
{
    lemma_auto_spec_u64_to_from_le_bytes();
    let s = enc_u64(x) + rest;
    assert(s.take(8) =~= enc_u64(x));
    assert(s.skip(8) =~= rest);
}

pub proof fn lemma_dec_i64(v: i64, rest: Seq<u8>)
    ensures
        dec_i64(enc_i64(v) + rest) == Some((v, rest)),
{
    lemma_auto_spec_u64_to_from_le_bytes();
    let s = enc_i64(v) + rest;
    if v >= 0 {
        let m = v as u64;
        assert(s.skip(1) =~= enc_u64(m) + rest);
        lemma_dec_u64(m, rest);
        assert(s[0] == 0u8);
        assert(m <= I64_MAX_AS_U64);
        assert(m as i64 == v);
    } else {
        let m = (-(v as int) - 1) as u64;
        assert(s.skip(1) =~= enc_u64(m) + rest);
        lemma_dec_u64(m, rest);
        assert(s[0] == 1u8);
        assert(m <= I64_MAX_AS_U64);
        assert((-(m as int) - 1) as i64 == v);
    }
}

pub proof fn lemma_dec_bytes(b: Seq<u8>, rest: Seq<u8>)
    requires
        b.len() <= u64::MAX,
    ensures
        dec_bytes(enc_bytes(b) + rest) == Some((b, rest)),
{
    let n = b.len() as u64;
    assert(enc_bytes(b) + rest =~= enc_u64(n) + (b + rest));
    lemma_dec_u64(n, b + rest);
    assert((b + rest).take(n as int) =~= b);
    assert((b + rest).skip(n as int) =~= rest);
}

pub proof fn lemma_dec_str(t: Seq<char>, rest: Seq<u8>)
    requires
        encode_utf8(t).len() <= u64::MAX,
    ensures
        dec_str(enc_str(t) + rest) == Some((t, rest)),
{
    broadcast use encode_utf8_valid_utf8, encode_utf8_decode_utf8;

    lemma_dec_bytes(encode_utf8(t), rest);
}

pub proof fn lemma_dec_scope(sc: IntentScope, rest: Seq<u8>)
    ensures
        dec_scope(seq![scope_tag(sc)] + rest) == Some((sc, rest)),
{
    let s = seq![scope_tag(sc)] + rest;
    assert(s[0] == scope_tag(sc));
    assert(s.skip(1) =~= rest);
}

pub proof fn lemma_dec_metrics(v: MetricsView, rest: Seq<u8>)
    requires
        metrics_fits(v),
    ensures
        dec_metrics(enc_metrics(v) + rest) == Some((v, rest)),
{
    let r5 = rest;
    let r4 = enc_str(v.queried_name) + r5;
    let r3 = enc_i64(v.members) + r4;
    let r2 = enc_i64(v.rank) + r3;
    let r1 = enc_i64(v.rating_centi) + r2;
    assert(enc_metrics(v) + rest =~= enc_str(v.title) + r1);
    lemma_dec_str(v.title, r1);
    lemma_dec_i64(v.rating_centi, r2);
    lemma_dec_i64(v.rank, r3);
    lemma_dec_i64(v.members, r4);
    lemma_dec_str(v.queried_name, r5);
}

pub proof fn lemma_dec_message(m: MessageView, rest: Seq<u8>)
    requires
        metrics_fits(m.payload),
    ensures
        dec_message(enc_message(m) + rest) == Some((m, rest)),
{
    let r2 = rest;
    let r1 = enc_metrics(m.payload) + r2;
    let r0 = enc_u64(m.timestamp_ms) + r1;
    assert(enc_message(m) + rest =~= seq![scope_tag(m.scope)] + r0);
    lemma_dec_scope(m.scope, r0);
    lemma_dec_u64(m.timestamp_ms, r1);
    lemma_dec_metrics(m.payload, r2);
}

/// Serialization round trip: decoding an encoded envelope yields the
/// original envelope exactly.
pub proof fn lemma_envelope_round_trip(e: EnvelopeView)
    ensures
        envelope_fits(e) ==> dec_envelope(enc_envelope(e)) == Some(e),
{
    if envelope_fits(e) {
        let tail = enc_bytes(e.signature);
        assert(enc_envelope(e) =~= enc_message(e.response) + tail);
        lemma_dec_message(e.response, tail);
        assert(tail =~= enc_bytes(e.signature) + Seq::<u8>::empty());
        lemma_dec_bytes(e.signature, Seq::<u8>::empty());
    }
}

/// The canonical form binds the intent: two messages that differ in scope or
/// in timestamp never share a canonical serialization, whatever their
/// payloads. A signature over one can therefore never pass as a signature
/// over the other.
pub proof fn lemma_canonical_binds_intent(a: MessageView, b: MessageView)
    requires
        a.scope != b.scope || a.timestamp_ms != b.timestamp_ms,
    ensures
        enc_message(a) != enc_message(b),
{
    lemma_auto_spec_u64_to_from_le_bytes();
    if enc_message(a) == enc_message(b) {
        assert(enc_message(a)[0] == scope_tag(a.scope));
        assert(enc_message(b)[0] == scope_tag(b.scope));
        assert(a.scope == b.scope);
        assert(enc_message(a).subrange(1, 9) =~= enc_u64(a.timestamp_ms));
        assert(enc_message(b).subrange(1, 9) =~= enc_u64(b.timestamp_ms));
        assert(spec_u64_from_le_bytes(enc_u64(a.timestamp_ms))
            == spec_u64_from_le_bytes(enc_u64(b.timestamp_ms)));
        assert(a.timestamp_ms == b.timestamp_ms);
    }
}

// ---------------------------------------------------------------------------
// Executable encoding
// ---------------------------------------------------------------------------

/// Appends every byte of `src` to `out`.
pub fn push_all(out: &mut Vec<u8>, src: &Vec<u8>)
    ensures
        final(out)@ == old(out)@ + src@,
{
    let mut i: usize = 0;
    while i < src.len()
        invariant
            i <= src@.len(),
            out@ == old(out)@ + src@.take(i as int),
        decreases src@.len() - i,
    {
        out.push(src[i]);
        proof {
            assert(src@.take(i + 1 as int) =~= src@.take(i as int).push(src@[i as int]));
        }
        i = i + 1;
    }
    proof {
        assert(src@.take(src@.len() as int) =~= src@);
    }
}

fn encode_u64_into(out: &mut Vec<u8>, x: u64)
    ensures
        final(out)@ == old(out)@ + enc_u64(x),
{
    let mut b = u64_to_le_bytes(x);
    out.append(&mut b);
}

fn encode_i64_into(out: &mut Vec<u8>, v: i64)
    ensures
        final(out)@ == old(out)@ + enc_i64(v),
{
    if v >= 0 {
        out.push(0u8);
        encode_u64_into(out, v as u64);
        proof {
            assert(old(out)@.push(0u8) + enc_u64(v as u64) =~= old(out)@ + enc_i64(v));
        }
    } else {
        out.push(1u8);
        let m: i64 = -(v + 1);
        encode_u64_into(out, m as u64);
        proof {
            assert(m as u64 == (-(v as int) - 1) as u64);
            assert(old(out)@.push(1u8) + enc_u64(m as u64) =~= old(out)@ + enc_i64(v));
        }
    }
}

fn encode_bytes_into(out: &mut Vec<u8>, b: &Vec<u8>)
    ensures
        final(out)@ == old(out)@ + enc_bytes(b@),
        b@.len() <= u64::MAX,
{
    encode_u64_into(out, b.len() as u64);
    push_all(out, b);
    proof {
        assert((old(out)@ + enc_u64(b@.len() as u64)) + b@ =~= old(out)@ + enc_bytes(b@));
    }
}

fn encode_str_into(out: &mut Vec<u8>, s: &String)
    ensures
        final(out)@ == old(out)@ + enc_str(s@),
        encode_utf8(s@).len() <= u64::MAX,
{
    let bytes = s.as_str().as_bytes_vec();
    encode_bytes_into(out, &bytes);
}

fn scope_tag_exec(sc: IntentScope) -> (r: u8)
    ensures
        r == scope_tag(sc),
{
    match sc {
        IntentScope::ProcessData => 0u8,
        IntentScope::Attestation => 1u8,
    }
}

/// The canonical serialization of an intent message: the byte string that is
/// signed and verified.
pub fn encode_message(m: &IntentMessage) -> (r: Vec<u8>)
    ensures
        r@ == enc_message(m@),
        metrics_fits(m@.payload),
{
    let mut out: Vec<u8> = Vec::new();
    out.push(scope_tag_exec(m.scope));
    encode_u64_into(&mut out, m.timestamp_ms);
    encode_str_into(&mut out, &m.payload.title);
    encode_i64_into(&mut out, m.payload.external_average_rating_centi);
    encode_i64_into(&mut out, m.payload.external_popularity_rank);
    encode_i64_into(&mut out, m.payload.external_member_count);
    encode_str_into(&mut out, &m.payload.queried_name);
    proof {
        assert(out@ =~= enc_message(m@));
    }
    out
}

/// The serialized form of a signed envelope, as the cache stores it.
pub fn encode_envelope(e: &SignedEnvelope) -> (r: Vec<u8>)
    ensures
        r@ == enc_envelope(e@),
        envelope_fits(e@),
{
    let mut out = encode_message(&e.response);
    encode_bytes_into(&mut out, &e.signature);
    proof {
        assert(out@ =~= enc_envelope(e@));
    }
    out
}

// ---------------------------------------------------------------------------
// Executable decoding
// ---------------------------------------------------------------------------

/// Relies on String::from_utf8: succeeds exactly on valid UTF-8 input, and
/// then returns the string those bytes encode.
#[verifier::external_body]
fn string_from_utf8(bytes: Vec<u8>) -> (r: Option<String>)
    ensures
        r is Some <==> valid_utf8(bytes@),
        r matches Some(s) ==> s@ == decode_utf8(bytes@),
{
    String::from_utf8(bytes).ok()
}

fn decode_u64_at(b: &Vec<u8>, i: usize) -> (r: Option<(u64, usize)>)
    requires
        i <= b@.len(),
    ensures
        match r {
            Some((v, j)) => i <= j <= b@.len() && dec_u64(b@.skip(i as int)) == Some(
                (v, b@.skip(j as int)),
            ),
            None => dec_u64(b@.skip(i as int)) is None,
        },
{
    if b.len() - i >= 8 {
        let sl = vstd::slice::slice_subrange(b.as_slice(), i, i + 8);
        let v = u64_from_le_bytes(sl);
        proof {
            assert(b@.skip(i as int).take(8) =~= b@.subrange(i as int, i as int + 8));
            assert(b@.skip(i as int).skip(8) =~= b@.skip(i as int + 8));
        }
        Some((v, i + 8))
    } else {
        None
    }
}

fn decode_i64_at(b: &Vec<u8>, i: usize) -> (r: Option<(i64, usize)>)
    requires
        i <= b@.len(),
    ensures
        match r {
            Some((v, j)) => i <= j <= b@.len() && dec_i64(b@.skip(i as int)) == Some(
                (v, b@.skip(j as int)),
            ),
            None => dec_i64(b@.skip(i as int)) is None,
        },
{
    if b.len() - i < 1 {
        return None;
    }
    let tag = b[i];
    proof {
        assert(b@.skip(i as int)[0] == b@[i as int]);
        assert(b@.skip(i as int).skip(1) =~= b@.skip(i as int + 1));
    }
    match decode_u64_at(b, i + 1) {
        Some((m, j)) => {
            if m > I64_MAX_AS_U64 {
                None
            } else if tag == 0 {
                Some((m as i64, j))
            } else if tag == 1 {
                let v: i64 = -(m as i64) - 1;
                Some((v, j))
            } else {
                None
            }
        },
        None => None,
    }
}

fn decode_bytes_at(b: &Vec<u8>, i: usize) -> (r: Option<(Vec<u8>, usize)>)
    requires
        i <= b@.len(),
    ensures
        match r {
            Some((v, j)) => i <= j <= b@.len() && dec_bytes(b@.skip(i as int)) == Some(
                (v@, b@.skip(j as int)),
            ),
            None => dec_bytes(b@.skip(i as int)) is None,
        },
{
    match decode_u64_at(b, i) {
        Some((n, j)) => {
            if ((b.len() - j) as u64) < n {
                proof {
                    assert(b@.skip(j as int).len() == b@.len() - j);
                }
                return None;
            }
            let cnt = n as usize;
            let sl = vstd::slice::slice_subrange(b.as_slice(), j, j + cnt);
            let out = vstd::slice::slice_to_vec(sl);
            proof {
                assert(b@.skip(j as int).take(n as int) =~= b@.subrange(
                    j as int,
                    j as int + n as int,
                ));
                assert(b@.skip(j as int).skip(n as int) =~= b@.skip(j as int + n as int));
            }
            Some((out, j + cnt))
        },
        None => None,
    }
}

fn decode_str_at(b: &Vec<u8>, i: usize) -> (r: Option<(String, usize)>)
    requires
        i <= b@.len(),
    ensures
        match r {
            Some((s, j)) => i <= j <= b@.len() && dec_str(b@.skip(i as int)) == Some(
                (s@, b@.skip(j as int)),
            ),
            None => dec_str(b@.skip(i as int)) is None,
        },
{
    match decode_bytes_at(b, i) {
        Some((bytes, j)) => {
            match string_from_utf8(bytes) {
                Some(s) => Some((s, j)),
                None => None,
            }
        },
        None => None,
    }
}

fn decode_scope_at(b: &Vec<u8>, i: usize) -> (r: Option<(IntentScope, usize)>)
    requires
        i <= b@.len(),
    ensures
        match r {
            Some((sc, j)) => i <= j <= b@.len() && dec_scope(b@.skip(i as int)) == Some(
                (sc, b@.skip(j as int)),
            ),
            None => dec_scope(b@.skip(i as int)) is None,
        },
{
    if b.len() - i < 1 {
        return None;
    }
    let tag = b[i];
    proof {
        assert(b@.skip(i as int)[0] == b@[i as int]);
        assert(b@.skip(i as int).skip(1) =~= b@.skip(i as int + 1));
    }
    if tag == 0 {
        Some((IntentScope::ProcessData, i + 1))
    } else if tag == 1 {
        Some((IntentScope::Attestation, i + 1))
    } else {
        None
    }
}

fn decode_message_at(b: &Vec<u8>, i: usize) -> (r: Option<(IntentMessage, usize)>)
    requires
        i <= b@.len(),
    ensures
        match r {
            Some((m, j)) => i <= j <= b@.len() && dec_message(b@.skip(i as int)) == Some(
                (m@, b@.skip(j as int)),
            ),
            None => dec_message(b@.skip(i as int)) is None,
        },
{
    let (scope, i1) = match decode_scope_at(b, i) {
        Some(x) => x,
        None => {
            return None;
        },
    };
    let (ts, i2) = match decode_u64_at(b, i1) {
        Some(x) => x,
        None => {
            return None;
        },
    };
    let (title, i3) = match decode_str_at(b, i2) {
        Some(x) => x,
        None => {
            return None;
        },
    };
    let (rating, i4) = match decode_i64_at(b, i3) {
        Some(x) => x,
        None => {
            return None;
        },
    };
    let (rank, i5) = match decode_i64_at(b, i4) {
        Some(x) => x,
        None => {
            return None;
        },
    };
    let (members, i6) = match decode_i64_at(b, i5) {
        Some(x) => x,
        None => {
            return None;
        },
    };
    let (queried, i7) = match decode_str_at(b, i6) {
        Some(x) => x,
        None => {
            return None;
        },
    };
    let m = IntentMessage {
        scope,
        timestamp_ms: ts,
        payload: MyMetrics {
            title,
            external_average_rating_centi: rating,
            external_popularity_rank: rank,
            external_member_count: members,
            queried_name: queried,
        },
    };
    Some((m, i7))
}

/// Decodes a serialized envelope, as `encode_envelope` wrote it. Returns
/// `None` exactly when the bytes are not a canonical envelope.
pub fn decode_envelope(b: &Vec<u8>) -> (r: Option<SignedEnvelope>)
    ensures
        match r {
            Some(e) => dec_envelope(b@) == Some(e@),
            None => dec_envelope(b@) is None,
        },
{
    proof {
        assert(b@.skip(0) =~= b@);
    }
    let (m, i1) = match decode_message_at(b, 0) {
        Some(x) => x,
        None => {
            return None;
        },
    };
    let (sig, i2) = match decode_bytes_at(b, i1) {
        Some(x) => x,
        None => {
            return None;
        },
    };
    if i2 != b.len() {
        proof {
            assert(b@.skip(i2 as int).len() != 0);
        }
        return None;
    }
    Some(SignedEnvelope { response: m, signature: sig })
}

} // verus!
