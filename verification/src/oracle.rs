//! The oracle orchestrator: per request, validate the query, consult the
//! freshness cache, and either return the stored envelope unchanged or have
//! the caller fetch upstream and then sign, store and return a new envelope.
//!
//! The network call itself happens outside this module: `begin_process`
//! decides whether one is needed and `complete_process` consumes its outcome,
//! so every decision the pipeline makes is covered by a contract whatever the
//! transport did.

use vstd::prelude::*;
use crate::cache::FreshnessCache;
use crate::codec::{
    dec_envelope, decode_envelope, enc_envelope, enc_message, encode_envelope, envelope_fits,
    lemma_envelope_round_trip,
};
use crate::errors::OracleError;
use crate::fetch::{centi_of_text, decode_body, int_field_of, node_fields_of, text_or_empty};
use crate::message::{EnvelopeView, IntentScope, MyAnimeRequest, SignedEnvelope};
use crate::query::{lemma_key_normalization, lower_of, norm_key_of, prepare_query, trim_of, PreparedQuery};
use crate::signer::{ed25519_sig_of, to_signed_response, EnclaveKey};

verus! {

/// What the cache probe decided for one request.
pub enum ProbeOutcome {
    /// The request fails without touching the upstream: an invalid input, or
    /// a fresh cache entry whose bytes no longer decode.
    Rejected(OracleError),
    /// A fresh entry was found: its envelope is returned unchanged, with the
    /// signature and timestamp it was stored with.
    Hit(SignedEnvelope),
    /// No usable entry: the caller must fetch upstream and then call
    /// `complete_process` with the outcome.
    NeedFetch(PreparedQuery),
}

/// Validates the raw query and probes the cache.
///
/// Exactly one of the following holds:
/// - the trimmed query is empty: `Rejected(InvalidInput)`;
/// - a fresh entry exists and decodes: `Hit` with exactly the entry's
///   envelope, not re-signed and not re-stamped;
/// - a fresh entry exists and does not decode: `Rejected(SerializationError)`;
/// - otherwise (a miss or a stale entry): `NeedFetch` for this query.
pub fn begin_process(cache: &FreshnessCache, request: &MyAnimeRequest, now_secs: u64) -> (r:
    ProbeOutcome)
    ensures
        ({
            let raw = request.name@;
            match r {
                ProbeOutcome::Rejected(e) => (trim_of(raw).len() == 0 && e
                    == OracleError::InvalidInput) || (trim_of(raw).len() > 0 && cache.is_fresh(
                    norm_key_of(raw),
                    now_secs,
                ) && dec_envelope(cache@[norm_key_of(raw)].1) is None && e
                    == OracleError::SerializationError),
                ProbeOutcome::Hit(env) => trim_of(raw).len() > 0 && cache.is_fresh(
                    norm_key_of(raw),
                    now_secs,
                ) && dec_envelope(cache@[norm_key_of(raw)].1) == Some(env@),
                ProbeOutcome::NeedFetch(p) => trim_of(raw).len() > 0 && !cache.is_fresh(
                    norm_key_of(raw),
                    now_secs,
                ) && p.is_for(raw),
            }
        }),
{
    let prepared = match prepare_query(&request.name) {
        Ok(p) => p,
        Err(e) => {
            return ProbeOutcome::Rejected(e);
        },
    };
    match cache.lookup(&prepared.key, now_secs) {
        Some(stored) => match decode_envelope(&stored) {
            Some(env) => ProbeOutcome::Hit(env),
            None => ProbeOutcome::Rejected(OracleError::SerializationError),
        },
        None => ProbeOutcome::NeedFetch(prepared),
    }
}

/// Consumes the outcome of the upstream fetch for a query that
/// `begin_process` sent out.
///
/// - A failed fetch propagates its error and leaves the cache untouched: a
///   transient outage never erases the last stored envelope.
/// - A body that is not JSON fails with `DecodeError`, cache untouched.
/// - Otherwise each payload field is exactly the named extraction of the
///   fetched bytes under the per-field defaulting rules; the record is signed
///   under the `ProcessData` scope at `now_millis`, stored under the query's
///   key at `now_secs`, and returned; the stored bytes decode back to
///   exactly the returned envelope.
pub fn complete_process(
    cache: &mut FreshnessCache,
    signing_key: &EnclaveKey,
    query: PreparedQuery,
    fetched: Result<Vec<u8>, OracleError>,
    now_secs: u64,
    now_millis: u64,
) -> (r: Result<SignedEnvelope, OracleError>)
    requires
        signing_key.wf(),
    ensures
        final(cache).ttl() == old(cache).ttl(),
        match fetched {
            Err(e) => r == Err::<SignedEnvelope, OracleError>(e) && final(cache)@ == old(cache)@,
            Ok(body) => {
                if node_fields_of(body@) is Some {
                    match r {
                        Ok(env) => {
                            &&& env.response.scope == IntentScope::ProcessData
                            &&& env.response.timestamp_ms == now_millis
                            &&& env.response.payload.queried_name@ == query.name@
                            &&& (node_fields_of(body@) matches Some(f)
                                && env.response.payload@.title == text_or_empty(f.0)
                                && env.response.payload@.rating_centi == centi_of_text(f.1)
                                && env.response.payload@.rank == int_field_of(f.2)
                                && env.response.payload@.members == int_field_of(f.3))
                            &&& env.signature@ == ed25519_sig_of(
                                signing_key.seed_view(),
                                enc_message(env.response@),
                            )
                            &&& env.signature@.len() == 64
                            &&& final(cache)@ == old(cache)@.insert(
                                query.key@,
                                (now_secs, enc_envelope(env@)),
                            )
                            &&& dec_envelope(enc_envelope(env@)) == Some(env@)
                        },
                        Err(_) => false,
                    }
                } else {
                    &&& r == Err::<SignedEnvelope, OracleError>(OracleError::DecodeError)
                    &&& final(cache)@ == old(cache)@
                }
            },
        },
{
    let body = match fetched {
        Ok(b) => b,
        Err(e) => {
            return Err(e);
        },
    };
    let PreparedQuery { name, key: cache_key } = query;
    let metrics = match decode_body(&body, name) {
        Some(m) => m,
        None => {
            return Err(OracleError::DecodeError);
        },
    };
    let envelope = to_signed_response(signing_key, metrics, now_millis, IntentScope::ProcessData);
    let encoded = encode_envelope(&envelope);
    proof {
        lemma_envelope_round_trip(envelope@);
    }
    cache.insert(cache_key, now_secs, encoded);
    Ok(envelope)
}

/// Idempotence within the TTL: once a request has stored an envelope, any
/// probe of the same key within the TTL window finds the entry fresh and
/// decodes it to exactly that envelope — same payload, same timestamp, same
/// signature, byte for byte. Combined with `begin_process`, the second call
/// answers `Hit` with the first call's envelope.
pub proof fn lemma_idempotent_within_ttl(
    before: FreshnessCache,
    after: FreshnessCache,
    key: Seq<char>,
    env: EnvelopeView,
    stored_at: u64,
    now: u64,
)
    requires
        envelope_fits(env),
        after@ == before@.insert(key, (stored_at, enc_envelope(env))),
        after.ttl() == before.ttl(),
        (now as int) < stored_at + after.ttl(),
    ensures
        after.is_fresh(key, now),
        dec_envelope(after@[key].1) == Some(env),
{
    lemma_envelope_round_trip(env);
}

/// Key normalization: two raw queries with the same trimmed, case-folded
/// form share one cache key, so once the first has stored its envelope, a
/// probe for the second within the TTL finds that very entry and decodes it
/// to the same envelope. The second query's trimmed form is required
/// non-empty, as `begin_process` rejects an empty one before probing.
pub proof fn lemma_normalized_queries_share_entry(
    before: FreshnessCache,
    after: FreshnessCache,
    raw_first: Seq<char>,
    raw_second: Seq<char>,
    env: EnvelopeView,
    stored_at: u64,
    now: u64,
)
    requires
        lower_of(trim_of(raw_first)) == lower_of(trim_of(raw_second)),
        trim_of(raw_second).len() > 0,
        envelope_fits(env),
        after@ == before@.insert(norm_key_of(raw_first), (stored_at, enc_envelope(env))),
        after.ttl() == before.ttl(),
        (now as int) < stored_at + after.ttl(),
    ensures
        norm_key_of(raw_second) == norm_key_of(raw_first),
        after.is_fresh(norm_key_of(raw_second), now),
        dec_envelope(after@[norm_key_of(raw_second)].1) == Some(env),
{
    lemma_key_normalization(raw_first, raw_second);
    lemma_envelope_round_trip(env);
}

/// Refresh after the TTL: once the TTL has elapsed, the stored entry is no
/// longer served — the probe reports a miss, so the pipeline refetches,
/// re-signs and stores an envelope stamped with the later signing moment.
pub proof fn lemma_refresh_after_ttl(cache: FreshnessCache, key: Seq<char>, now: u64)
    requires
        cache@.contains_key(key),
        now as int >= cache@[key].0 + cache.ttl(),
    ensures
        !cache.is_fresh(key, now),
{
}

/// A failed fetch never disturbs any cache entry: whatever key the failed
/// request was for, every stored entry — in particular a fresh one for any
/// other key — is exactly as it was.
pub proof fn lemma_failure_preserves_entries(
    before: FreshnessCache,
    after: FreshnessCache,
    other_key: Seq<char>,
    now: u64,
)
    requires
        after@ == before@,
        after.ttl() == before.ttl(),
        before.is_fresh(other_key, now),
    ensures
        after.is_fresh(other_key, now),
        after@[other_key] == before@[other_key],
{
}

} // verus!
