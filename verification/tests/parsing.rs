use attested_oracle::cache::FreshnessCache;
use attested_oracle::codec::{decode_envelope, encode_envelope, encode_message};
use attested_oracle::errors::OracleError;
use attested_oracle::fetch::{classify_status, decode_body, parse_decimal_centis};
use attested_oracle::message::{IntentMessage, IntentScope, MyMetrics, SignedEnvelope};
use attested_oracle::query::{build_search_url, choose_credential, Credential};

#[test]
fn decimal_centis_exact_values() {
    assert_eq!(parse_decimal_centis(&"8.53".to_string()), Some(853));
    assert_eq!(parse_decimal_centis(&"8.5".to_string()), Some(850));
    assert_eq!(parse_decimal_centis(&"8".to_string()), Some(800));
    assert_eq!(parse_decimal_centis(&"0.07".to_string()), Some(7));
    assert_eq!(parse_decimal_centis(&"-2.5".to_string()), Some(-250));
    assert_eq!(parse_decimal_centis(&"8.539".to_string()), Some(853));
}

#[test]
fn decimal_centis_rejects_malformed() {
    assert_eq!(parse_decimal_centis(&"".to_string()), None);
    assert_eq!(parse_decimal_centis(&"8.".to_string()), None);
    assert_eq!(parse_decimal_centis(&".5".to_string()), None);
    assert_eq!(parse_decimal_centis(&"abc".to_string()), None);
    assert_eq!(parse_decimal_centis(&"8.5e1".to_string()), None);
    assert_eq!(parse_decimal_centis(&"1234567890123456".to_string()), None);
}

#[test]
fn body_extraction_populates_all_fields() {
    let body =
        br#"{"data":[{"node":{"title":"Naruto","mean":8.53,"popularity":123,"num_list_users":1000}}]}"#
            .to_vec();
    let m = decode_body(&body, "Naruto".to_string()).expect("valid JSON");
    assert_eq!(m.title, "Naruto");
    assert_eq!(m.external_average_rating_centi, 853);
    assert_eq!(m.external_popularity_rank, 123);
    assert_eq!(m.external_member_count, 1000);
    assert_eq!(m.queried_name, "Naruto");
}

#[test]
fn body_without_results_defaults_every_field() {
    let m = decode_body(&b"{\"data\":[]}".to_vec(), "nothing".to_string()).expect("valid JSON");
    assert_eq!(m.title, "");
    assert_eq!(m.external_average_rating_centi, 0);
    assert_eq!(m.external_popularity_rank, 0);
    assert_eq!(m.external_member_count, 0);
    assert_eq!(m.queried_name, "nothing");
}

#[test]
fn envelope_serialization_round_trip() {
    let env = SignedEnvelope {
        response: IntentMessage {
            scope: IntentScope::ProcessData,
            timestamp_ms: 123456789,
            payload: MyMetrics {
                title: "Fullmetal Alchemist: Brotherhood".to_string(),
                external_average_rating_centi: 909,
                external_popularity_rank: 3,
                external_member_count: 3456789,
                queried_name: "fullmetal alchemist".to_string(),
            },
        },
        signature: vec![42u8; 64],
    };
    let bytes = encode_envelope(&env);
    let back = decode_envelope(&bytes).expect("canonical bytes decode");
    assert_eq!(back.response.timestamp_ms, env.response.timestamp_ms);
    assert_eq!(back.response.payload.title, env.response.payload.title);
    assert_eq!(back.response.payload.queried_name, env.response.payload.queried_name);
    assert_eq!(back.signature, env.signature);
    assert_eq!(encode_envelope(&back), bytes);
}

#[test]
fn canonical_message_differs_per_scope_and_timestamp() {
    let payload = || MyMetrics {
        title: "t".to_string(),
        external_average_rating_centi: 1,
        external_popularity_rank: 2,
        external_member_count: 3,
        queried_name: "q".to_string(),
    };
    let a = encode_message(&IntentMessage {
        scope: IntentScope::ProcessData,
        timestamp_ms: 1000,
        payload: payload(),
    });
    let b = encode_message(&IntentMessage {
        scope: IntentScope::Attestation,
        timestamp_ms: 1000,
        payload: payload(),
    });
    let c = encode_message(&IntentMessage {
        scope: IntentScope::ProcessData,
        timestamp_ms: 1001,
        payload: payload(),
    });
    assert_ne!(a, b);
    assert_ne!(a, c);
}

#[test]
fn search_url_is_built_from_base_and_query() {
    let url = build_search_url(&"https://api.myanimelist.net/v2".to_string(), &"Cowboy Bebop".to_string())
        .expect("well-formed base URL");
    assert!(url.starts_with("https://api.myanimelist.net/v2/anime?"));
    assert!(url.contains("q=Cowboy+Bebop"));
    assert!(url.contains("limit=1"));
    assert!(url.contains("fields=mean%2Cpopularity%2Cnum_list_users"));
}

#[test]
fn malformed_base_url_is_a_config_error() {
    let r = build_search_url(&"not a url".to_string(), &"naruto".to_string());
    assert_eq!(r.unwrap_err(), OracleError::ConfigError);
}

#[test]
fn credential_precedence_prefers_client_id() {
    match choose_credential(Some("cid".to_string()), Some("tok".to_string())) {
        Credential::ClientId(c) => assert_eq!(c, "cid"),
        _ => panic!("the client id must win"),
    }
    match choose_credential(None, Some("tok".to_string())) {
        Credential::Bearer(t) => assert_eq!(t, "tok"),
        _ => panic!("the bearer token is the fallback"),
    }
    assert!(matches!(choose_credential(None, None), Credential::Anonymous));
}

#[test]
fn cache_insert_overwrites_and_lookup_respects_ttl() {
    let mut cache = FreshnessCache::new(10);
    cache.insert("k".to_string(), 100, vec![1]);
    cache.insert("k".to_string(), 105, vec![2]);
    assert_eq!(cache.lookup(&"k".to_string(), 110), Some(vec![2]));
    assert_eq!(cache.lookup(&"k".to_string(), 115), None);
    assert_eq!(cache.lookup(&"other".to_string(), 100), None);
}

#[test]
fn status_classification_matches_success_range() {
    assert_eq!(classify_status(200), Ok(()));
    assert_eq!(classify_status(299), Ok(()));
    assert_eq!(classify_status(301), Err(OracleError::UpstreamError { status: 301 }));
    assert_eq!(classify_status(404), Err(OracleError::UpstreamError { status: 404 }));
    assert_eq!(classify_status(500), Err(OracleError::UpstreamError { status: 500 }));
}

#[test]
fn error_labels_name_each_kind() {
    assert_eq!(OracleError::InvalidInput.label(), "invalid input: name required");
    assert_eq!(OracleError::UpstreamError { status: 500 }.label(),
        "upstream returned a non-success status");
}
