use attested_oracle::cache::FreshnessCache;
use attested_oracle::codec::encode_envelope;
use attested_oracle::errors::OracleError;
use attested_oracle::message::{IntentMessage, IntentScope, MyAnimeRequest, MyMetrics};
use attested_oracle::oracle::{begin_process, complete_process, ProbeOutcome};
use attested_oracle::signer::{to_signed_response, verify_envelope, verify_message, EnclaveKey};
use attested_oracle::clock::{current_millis, current_secs};

fn test_key() -> EnclaveKey {
    EnclaveKey::from_seed(vec![7u8; 32]).expect("32-byte seed")
}

fn sample_body() -> Vec<u8> {
    br#"{"data":[{"node":{"title":"Naruto","mean":8.53,"popularity":123,"num_list_users":1000}}]}"#
        .to_vec()
}

fn fetch_and_store(
    cache: &mut FreshnessCache,
    key: &EnclaveKey,
    raw: &str,
    body: Vec<u8>,
    now_secs: u64,
    now_millis: u64,
) -> attested_oracle::message::SignedEnvelope {
    let prepared = match begin_process(cache, &MyAnimeRequest { name: raw.to_string() }, now_secs) {
        ProbeOutcome::NeedFetch(p) => p,
        _ => panic!("expected a cache miss"),
    };
    complete_process(cache, key, prepared, Ok(body), now_secs, now_millis)
        .expect("fetch outcome was Ok")
}

#[test]
fn test_signature_roundtrip() {
    let key = test_key();
    let metrics = MyMetrics {
        title: "Test".to_string(),
        external_average_rating_centi: 850,
        external_popularity_rank: 123,
        external_member_count: 1000,
        queried_name: "test".to_string(),
    };
    let signed = to_signed_response(&key, metrics, current_millis() as u64, IntentScope::ProcessData);
    assert!(!signed.signature.is_empty());
}

#[test]
fn idempotent_within_ttl_returns_identical_envelope() {
    let key = test_key();
    let mut cache = FreshnessCache::new(300);
    let env1 = fetch_and_store(&mut cache, &key, "Naruto", sample_body(), 1000, 5000);
    // A second call 200 s later, inside the TTL window, is served from the
    // cache byte for byte: same timestamp, same signature.
    match begin_process(&cache, &MyAnimeRequest { name: "Naruto".to_string() }, 1200) {
        ProbeOutcome::Hit(env2) => {
            assert_eq!(encode_envelope(&env2), encode_envelope(&env1));
            assert_eq!(env2.response.timestamp_ms, 5000);
            assert_eq!(env2.signature, env1.signature);
        }
        _ => panic!("expected a fresh hit"),
    }
}

#[test]
fn refresh_after_ttl_gives_strictly_newer_timestamp() {
    let key = test_key();
    let mut cache = FreshnessCache::new(300);
    let env1 = fetch_and_store(&mut cache, &key, "Naruto", sample_body(), 1000, 5000);
    // 300 s later the entry is stale: the probe asks for a refetch.
    let prepared = match begin_process(&cache, &MyAnimeRequest { name: "Naruto".to_string() }, 1300) {
        ProbeOutcome::NeedFetch(p) => p,
        _ => panic!("expected the entry to be stale"),
    };
    let env2 = complete_process(&mut cache, &key, prepared, Ok(sample_body()), 1300, 305000)
        .expect("refreshed fetch succeeds");
    assert!(env2.response.timestamp_ms > env1.response.timestamp_ms);
}

#[test]
fn key_normalization_shares_one_entry() {
    let key = test_key();
    let mut cache = FreshnessCache::new(300);
    let env1 = fetch_and_store(&mut cache, &key, "Naruto", sample_body(), 1000, 5000);
    // A differently spelled query normalizes to the same key and hits the
    // same entry.
    match begin_process(&cache, &MyAnimeRequest { name: "  naruto  ".to_string() }, 1100) {
        ProbeOutcome::Hit(env2) => {
            assert_eq!(encode_envelope(&env2), encode_envelope(&env1));
        }
        _ => panic!("expected the normalized query to hit the same entry"),
    }
}

#[test]
fn empty_input_rejected_without_fetch() {
    let cache = FreshnessCache::new(300);
    for raw in ["", "   "] {
        match begin_process(&cache, &MyAnimeRequest { name: raw.to_string() }, 0) {
            ProbeOutcome::Rejected(e) => assert_eq!(e, OracleError::InvalidInput),
            _ => panic!("an empty query must be rejected before any fetch"),
        }
    }
}

#[test]
fn signature_binds_scope_and_timestamp() {
    let key = test_key();
    let pubkey = key.public_key();
    let metrics = MyMetrics {
        title: "Naruto".to_string(),
        external_average_rating_centi: 853,
        external_popularity_rank: 123,
        external_member_count: 1000,
        queried_name: "naruto".to_string(),
    };
    let env = to_signed_response(&key, metrics, 5000, IntentScope::ProcessData);
    assert!(verify_envelope(&pubkey, &env));

    // The same signature fails against a message with a different scope.
    let other_scope = IntentMessage {
        scope: IntentScope::Attestation,
        timestamp_ms: env.response.timestamp_ms,
        payload: MyMetrics {
            title: env.response.payload.title.clone(),
            external_average_rating_centi: env.response.payload.external_average_rating_centi,
            external_popularity_rank: env.response.payload.external_popularity_rank,
            external_member_count: env.response.payload.external_member_count,
            queried_name: env.response.payload.queried_name.clone(),
        },
    };
    assert!(!verify_message(&pubkey, &other_scope, &env.signature));

    // And against a message with a different timestamp.
    let other_time = IntentMessage {
        scope: IntentScope::ProcessData,
        timestamp_ms: 5001,
        payload: other_scope.payload,
    };
    assert!(!verify_message(&pubkey, &other_time, &env.signature));
}

#[test]
fn missing_rating_defaults_to_zero() {
    let key = test_key();
    let mut cache = FreshnessCache::new(300);
    let body =
        br#"{"data":[{"node":{"title":"Naruto","popularity":123,"num_list_users":1000}}]}"#
            .to_vec();
    let env = fetch_and_store(&mut cache, &key, "Naruto", body, 1000, 5000);
    let m = &env.response.payload;
    assert_eq!(m.external_average_rating_centi, 0);
    assert_eq!(m.title, "Naruto");
    assert_eq!(m.external_popularity_rank, 123);
    assert_eq!(m.external_member_count, 1000);
    assert_eq!(m.queried_name, "Naruto");
}

#[test]
fn upstream_failure_leaves_cache_untouched() {
    let key = test_key();
    let mut cache = FreshnessCache::new(300);
    let env1 = fetch_and_store(&mut cache, &key, "Naruto", sample_body(), 1000, 5000);
    // A fetch for a different, cold key fails...
    let prepared = match begin_process(&cache, &MyAnimeRequest { name: "Bleach".to_string() }, 1100) {
        ProbeOutcome::NeedFetch(p) => p,
        _ => panic!("expected a miss for the cold key"),
    };
    let r = complete_process(
        &mut cache,
        &key,
        prepared,
        Err(OracleError::TransportError),
        1100,
        6000,
    );
    assert_eq!(r.unwrap_err(), OracleError::TransportError);
    // ... and the pre-seeded entry is still served, unchanged.
    match begin_process(&cache, &MyAnimeRequest { name: "Naruto".to_string() }, 1100) {
        ProbeOutcome::Hit(env2) => {
            assert_eq!(encode_envelope(&env2), encode_envelope(&env1));
        }
        _ => panic!("the pre-seeded entry must still be present"),
    }
}

#[test]
fn unparseable_body_is_a_decode_error_and_cache_untouched() {
    let key = test_key();
    let mut cache = FreshnessCache::new(300);
    let env1 = fetch_and_store(&mut cache, &key, "Naruto", sample_body(), 1000, 5000);
    let prepared = match begin_process(&cache, &MyAnimeRequest { name: "Bleach".to_string() }, 1100) {
        ProbeOutcome::NeedFetch(p) => p,
        _ => panic!("expected a miss"),
    };
    let r = complete_process(&mut cache, &key, prepared, Ok(b"not json".to_vec()), 1100, 6000);
    assert_eq!(r.unwrap_err(), OracleError::DecodeError);
    match begin_process(&cache, &MyAnimeRequest { name: "Naruto".to_string() }, 1100) {
        ProbeOutcome::Hit(env2) => {
            assert_eq!(encode_envelope(&env2), encode_envelope(&env1));
        }
        _ => panic!("the entry must still be present"),
    }
}

#[test]
fn upstream_status_error_is_propagated() {
    let key = test_key();
    let mut cache = FreshnessCache::new(300);
    let prepared = match begin_process(&cache, &MyAnimeRequest { name: "Naruto".to_string() }, 1000) {
        ProbeOutcome::NeedFetch(p) => p,
        _ => panic!("expected a miss"),
    };
    let r = complete_process(
        &mut cache,
        &key,
        prepared,
        Err(OracleError::UpstreamError { status: 503 }),
        1000,
        5000,
    );
    assert_eq!(r.unwrap_err(), OracleError::UpstreamError { status: 503 });
}

#[test]
fn corrupt_cache_entry_is_a_serialization_error() {
    let mut cache = FreshnessCache::new(300);
    cache.insert("mal:naruto".to_string(), 1000, vec![1, 2, 3]);
    match begin_process(&cache, &MyAnimeRequest { name: "Naruto".to_string() }, 1100) {
        ProbeOutcome::Rejected(e) => assert_eq!(e, OracleError::SerializationError),
        _ => panic!("a fresh entry that does not decode must be rejected"),
    }
}

#[test]
fn request_type_carries_the_name() {
    let req = MyAnimeRequest { name: "Naruto".to_string() };
    assert_eq!(req.name, "Naruto");
}

#[test]
fn clock_readings_are_consistent() {
    let s = current_secs();
    let ms = current_millis();
    assert!(ms / 1000 >= s as u128 - 1);
}
