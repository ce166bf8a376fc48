use okx_api_client::client::OkxClient;
use okx_api_client::config::Config;
use okx_api_client::query::QueryParams;
use okx_api_client::signer::{build_sign_string, sign};

const TS: &str = "2020-12-08T09:08:57.715Z";

fn test_config() -> Config {
    Config {
        api_key: "test_key".to_string(),
        secret_key: "test_secret".to_string(),
        passphrase: "test_passphrase".to_string(),
        base_url: "https://www.okx.com".to_string(),
        is_sandbox: false,
    }
}

fn swap_query() -> QueryParams {
    let mut query = QueryParams::new();
    query.insert("instId".to_string(), "BTC-USD-SWAP".to_string());
    query.insert("instType".to_string(), "SWAP".to_string());
    query
}

#[test]
fn test_signature_generation() {
    let config = test_config();

    let client = OkxClient::new(config);
    let timestamp = "2020-12-08T09:08:57.715Z";
    let method = "GET";
    let endpoint = "/api/v5/account/positions";
    let params = None;

    let signature = client.generate_signature(method, endpoint, params, timestamp).unwrap();
    assert!(!signature.is_empty());
}

#[test]
fn signature_without_query_has_known_value() {
    let client = OkxClient::new(test_config());
    let signature = client
        .generate_signature("GET", "/api/v5/account/positions", None, TS)
        .unwrap();
    assert_eq!(signature, "Sadl7OIPfVlivM2TBabUJ7GUmxg8J4WljxWJ5Taxq8M=");
}

#[test]
fn signature_with_query_has_known_value() {
    let query = swap_query();
    let signature = sign("test_secret", TS, "GET", "/api/v5/account/positions", Some(&query)).unwrap();
    assert_eq!(signature, "4OXvIpq0HPcR0y78BAXHbseuuf6goS6kBMFkAN2Njs0=");
}

#[test]
fn signature_is_base64_of_thirty_two_bytes() {
    let signature = sign("key", "", "", "The quick brown fox jumps over the lazy dog", None).unwrap();
    assert_eq!(signature, "97yD9DBThCSxMpjmqm+xQ+9NWaFJRhdZl0edvC0aPNg=");
    assert_eq!(signature.len(), 44);
    assert!(signature.ends_with('='));
}

#[test]
fn signature_takes_an_empty_secret() {
    let signature = sign("", TS, "GET", "/api/v5/account/balance", None).unwrap();
    assert_eq!(signature, "rk0H6BAgAsy2Oaqf0NoezxbiBqmHYlCYGZK9E7j/1rA=");
}

#[test]
fn signature_takes_a_secret_longer_than_a_block() {
    let secret = "k".repeat(100);
    let signature = sign(&secret, "", "", "abc", None).unwrap();
    assert_eq!(signature, "tYsraU/boN122j6+mRdPco0ydWDzbs4iTpCGeXJHmSI=");
}

#[test]
fn signature_of_a_post_has_known_value() {
    let signature = sign("test_secret", TS, "POST", "/api/v5/trade/order", None).unwrap();
    assert_eq!(signature, "HjM8h5OfIQZZSfRyuECdv1+3qlLDiuotrVqHo+RZu9Y=");
}

#[test]
fn signature_signs_the_utf8_bytes() {
    let mut query = QueryParams::new();
    query.insert("b".to_string(), "1".to_string());
    query.insert("ä".to_string(), "ö".to_string());
    // Signed: the timestamp, then `GET/p?b=1&ä=ö`, under the bytes of the secret.
    let signature = sign("sécret", TS, "GET", "/p", Some(&query)).unwrap();
    assert_eq!(signature, "vwtTA/kMtSJmZI2p2jfDtDJ+5TrP/zsX7dGCgn7pHOo=");
}

#[test]
fn signing_twice_gives_the_same_signature() {
    let query = swap_query();
    let first = sign("test_secret", TS, "GET", "/api/v5/account/positions", Some(&query)).unwrap();
    let second = sign("test_secret", TS, "GET", "/api/v5/account/positions", Some(&query)).unwrap();
    assert_eq!(first, second);
}

#[test]
fn signature_depends_on_each_input() {
    let base = sign("test_secret", TS, "GET", "/api/v5/account/positions", None).unwrap();
    assert_ne!(base, sign("other_secret", TS, "GET", "/api/v5/account/positions", None).unwrap());
    assert_ne!(
        base,
        sign("test_secret", "2020-12-08T09:08:57.716Z", "GET", "/api/v5/account/positions", None).unwrap()
    );
    assert_ne!(base, sign("test_secret", TS, "POST", "/api/v5/account/positions", None).unwrap());
    assert_ne!(base, sign("test_secret", TS, "GET", "/api/v5/account/balance", None).unwrap());
    let query = swap_query();
    assert_ne!(
        base,
        sign("test_secret", TS, "GET", "/api/v5/account/positions", Some(&query)).unwrap()
    );
}

#[test]
fn sign_string_is_timestamp_method_path() {
    let text = build_sign_string(TS, "GET", "/api/v5/account/positions", None);
    assert_eq!(text, "2020-12-08T09:08:57.715ZGET/api/v5/account/positions");
}

#[test]
fn sign_string_of_an_empty_query_has_no_question_mark() {
    let query = QueryParams::new();
    let text = build_sign_string(TS, "GET", "/api/v5/account/positions", Some(&query));
    assert_eq!(text, "2020-12-08T09:08:57.715ZGET/api/v5/account/positions");
    assert_eq!(
        sign("test_secret", TS, "GET", "/api/v5/account/positions", Some(&query)).unwrap(),
        "Sadl7OIPfVlivM2TBabUJ7GUmxg8J4WljxWJ5Taxq8M="
    );
}

#[test]
fn sign_string_sorts_the_query_by_key() {
    let query = swap_query();
    let text = build_sign_string(TS, "GET", "/api/v5/account/positions", Some(&query));
    assert_eq!(
        text,
        "2020-12-08T09:08:57.715ZGET/api/v5/account/positions?instId=BTC-USD-SWAP&instType=SWAP"
    );
}

#[test]
fn sign_string_does_not_depend_on_insertion_order() {
    let forward = swap_query();
    let mut reverse = QueryParams::new();
    reverse.insert("instType".to_string(), "SWAP".to_string());
    reverse.insert("instId".to_string(), "BTC-USD-SWAP".to_string());
    let first = build_sign_string(TS, "GET", "/api/v5/account/positions", Some(&forward));
    let second = build_sign_string(TS, "GET", "/api/v5/account/positions", Some(&reverse));
    assert_eq!(first, second);
    assert!(first.contains("?instId=BTC-USD-SWAP&instType=SWAP"));
    assert!(second.ends_with("?instId=BTC-USD-SWAP&instType=SWAP"));
    assert_eq!(
        sign("test_secret", TS, "GET", "/api/v5/account/positions", Some(&forward)).unwrap(),
        sign("test_secret", TS, "GET", "/api/v5/account/positions", Some(&reverse)).unwrap()
    );
}

#[test]
fn sign_string_does_not_encode_values() {
    let mut query = QueryParams::new();
    query.insert("q".to_string(), "a b&c=d/é".to_string());
    let text = build_sign_string("T", "GET", "/p", Some(&query));
    assert_eq!(text, "TGET/p?q=a b&c=d/é");
}
