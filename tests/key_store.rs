use stormgrok::decimal::parse_u64;
use stormgrok::google_key_store::{
    max_age_from_capture, parse_max_age, refresh_token, GoogleKeyStore, Jwk, KeyLookup, KeySnapshot,
    RefreshError, ResolveKey, JWKS_URL, RETRY_DELAY_SECS, USER_AGENT,
};
use stormgrok::handshake::HandshakeError;

fn jwk(kid: &str, n: &str, e: &str) -> Jwk {
    Jwk { kid: kid.to_string(), n: n.to_string(), e: e.to_string() }
}

#[test]
fn parse_u64_cases() {
    assert_eq!(parse_u64("0"), Some(0));
    assert_eq!(parse_u64("19432"), Some(19432));
    assert_eq!(parse_u64("+5"), Some(5));
    assert_eq!(parse_u64("18446744073709551615"), Some(u64::MAX));
    assert_eq!(parse_u64("18446744073709551616"), None);
    assert_eq!(parse_u64(""), None);
    assert_eq!(parse_u64("+"), None);
    assert_eq!(parse_u64("12a"), None);
    assert_eq!(parse_u64("-1"), None);
}

#[test]
fn max_age_is_read_from_cache_control() {
    assert_eq!(parse_max_age("public, max-age=19432, must-revalidate, no-transform"), Ok(19432));
    assert_eq!(parse_max_age("max-age=0,"), Ok(0));
}

#[test]
fn missing_max_age_is_an_error() {
    assert_eq!(parse_max_age("no-cache"), Err(RefreshError::NoMaxAge));
    assert_eq!(parse_max_age("public, max-age=60"), Err(RefreshError::NoMaxAge));
    assert_eq!(parse_max_age("max-age=,"), Err(RefreshError::BadMaxAge));
    assert_eq!(parse_max_age("max-age=99999999999999999999,"), Err(RefreshError::BadMaxAge));
}

#[test]
fn max_age_from_capture_cases() {
    assert_eq!(max_age_from_capture(None), Err(RefreshError::NoMaxAge));
    assert_eq!(max_age_from_capture(Some("")), Err(RefreshError::BadMaxAge));
    assert_eq!(max_age_from_capture(Some("3600")), Ok(3600));
}

#[test]
fn snapshot_holds_every_published_key() {
    let snap = KeySnapshot::build(&vec![jwk("a", "AQAB", "AQAB"), jwk("b", "AQAB", "AQAB")]).unwrap();
    assert!(snap.get(&"a".to_string()).is_some());
    assert!(snap.get(&"b".to_string()).is_some());
    assert!(snap.get(&"c".to_string()).is_none());
}

#[test]
fn snapshot_with_a_bad_key_is_rejected_whole() {
    let r = KeySnapshot::build(&vec![jwk("a", "AQAB", "AQAB"), jwk("b", "!!", "AQAB")]);
    assert!(matches!(r, Err(RefreshError::BadKey)));
}

#[test]
fn duplicate_kid_keeps_one_entry() {
    let snap = KeySnapshot::build(&vec![jwk("a", "AQAB", "AQAB"), jwk("a", "AQAC", "AQAB")]).unwrap();
    assert!(snap.get(&"a".to_string()).is_some());
}

#[test]
fn refresh_token_error_cases() {
    let keys = vec![jwk("a", "AQAB", "AQAB")];
    assert!(matches!(refresh_token(None, Some(&keys)), Err(RefreshError::NoCacheControl)));
    assert!(matches!(refresh_token(Some("no-store"), Some(&keys)), Err(RefreshError::NoMaxAge)));
    assert!(matches!(refresh_token(Some("max-age=10,"), None), Err(RefreshError::BadBody)));
    let bad = vec![jwk("a", "AQAB", "*")];
    assert!(matches!(refresh_token(Some("max-age=10,"), Some(&bad)), Err(RefreshError::BadKey)));
}

#[test]
fn refresh_replaces_snapshot_and_schedules() {
    let mut store = GoogleKeyStore::start();
    assert!(store.handle_resolve(&ResolveKey { kid: "a".to_string() }).is_none());
    let keys = vec![jwk("a", "AQAB", "AQAB")];
    let outcome = refresh_token(Some("public, max-age=120, must-revalidate"), Some(&keys));
    assert_eq!(store.apply_refresh(outcome), 120);
    assert!(store.handle_resolve(&ResolveKey { kid: "a".to_string() }).is_some());

    let keys = vec![jwk("b", "AQAB", "AQAB")];
    let outcome = refresh_token(Some("max-age=30,"), Some(&keys));
    assert_eq!(store.apply_refresh(outcome), 30);
    assert!(store.handle_resolve(&ResolveKey { kid: "a".to_string() }).is_none());
    assert!(store.handle_resolve(&ResolveKey { kid: "b".to_string() }).is_some());
}

#[test]
fn failed_refresh_keeps_snapshot() {
    let mut store = GoogleKeyStore::start();
    let keys = vec![jwk("a", "AQAB", "AQAB")];
    store.apply_refresh(refresh_token(Some("max-age=10,"), Some(&keys)));
    let delay = store.apply_refresh(Err(RefreshError::Fetch));
    assert_eq!(delay, RETRY_DELAY_SECS);
    assert_eq!(delay, 3600);
    assert!(store.handle_resolve(&ResolveKey { kid: "a".to_string() }).is_some());
}

#[test]
fn key_lookup_refreshes_once_then_fails() {
    let mut store = GoogleKeyStore::start();
    let kid = "k1".to_string();
    assert!(matches!(store.get_key_for_kid(&kid, false), KeyLookup::RefreshAndRetry));
    match store.get_key_for_kid(&kid, true) {
        KeyLookup::Missing(HandshakeError::UnknownKid(k)) => assert_eq!(k, "k1"),
        _ => panic!("expected a missing key"),
    }
    let keys = vec![jwk("k1", "AQAB", "AQAB")];
    store.apply_refresh(refresh_token(Some("max-age=10,"), Some(&keys)));
    assert!(matches!(store.get_key_for_kid(&kid, true), KeyLookup::Found(_)));
}

#[test]
fn issuer_constants() {
    assert_eq!(JWKS_URL, "https://www.googleapis.com/oauth2/v3/certs");
    assert_eq!(USER_AGENT, "stormgrok");
}
