use okx_api_client::client::{
    build_headers, build_url, create_client, get_timestamp, interpret_response,
    is_valid_timestamp, judge_envelope, parse_method, prepare_request, status_is_success,
    timestamp_from, EnvelopeHead, HttpMethod, OkxClient, TIMESTAMP_FORMAT,
};
use okx_api_client::config::Config;
use okx_api_client::error::ClientError;
use okx_api_client::query::QueryParams;
use okx_api_client::rate_limiter::WaitDecision;

const TS: &str = "2020-12-08T09:08:57.715Z";

fn config(sandbox: bool) -> Config {
    Config {
        api_key: "test_key".to_string(),
        secret_key: "test_secret".to_string(),
        passphrase: "test_passphrase".to_string(),
        base_url: "https://www.okx.com".to_string(),
        is_sandbox: sandbox,
    }
}

fn pair(name: &str, value: &str) -> (String, String) {
    (name.to_string(), value.to_string())
}

#[test]
fn test_client_creation() {
    let config = Config {
        api_key: "test_key".to_string(),
        secret_key: "test_secret".to_string(),
        passphrase: "test_passphrase".to_string(),
        base_url: "https://www.okx.com".to_string(),
        is_sandbox: false,
    };

    let client = OkxClient::new(config);
    assert_eq!(client.config.api_key, "test_key");
}

#[test]
fn create_client_keeps_the_configuration() {
    let client = create_client(config(true));
    assert_eq!(client.config.api_key, "test_key");
    assert_eq!(client.config.secret_key, "test_secret");
    assert_eq!(client.config.passphrase, "test_passphrase");
    assert_eq!(client.config.base_url, "https://www.okx.com");
    assert!(client.config.is_sandbox);
}

#[test]
fn a_new_client_allows_ten_requests_per_window() {
    let mut client = OkxClient::new(config(false));
    for _ in 0..10 {
        assert_eq!(client.wait_step(), WaitDecision::Proceed);
    }
    assert_eq!(client.wait_step(), WaitDecision::Sleep { millis: 100 });
    assert_eq!(client.config.api_key, "test_key");
}

#[test]
fn get_and_post_are_the_methods() {
    assert!(matches!(parse_method("GET"), Ok(HttpMethod::Get)));
    assert!(matches!(parse_method("POST"), Ok(HttpMethod::Post)));
}

#[test]
fn another_method_is_refused_by_name() {
    for verb in ["get", "PUT", "DELETE", "", "GET ", "POSTS"] {
        match parse_method(verb) {
            Err(ClientError::UnsupportedMethod { method }) => assert_eq!(method, verb),
            other => panic!("{:?} for {:?}", other, verb),
        }
    }
}

#[test]
fn url_is_base_then_path() {
    assert_eq!(
        build_url("https://www.okx.com", "/api/v5/account/balance"),
        "https://www.okx.com/api/v5/account/balance"
    );
    assert_eq!(build_url("", ""), "");
    assert_eq!(build_url("http://h/", "/p"), "http://h//p");
}

#[test]
fn headers_without_sandbox() {
    let headers = build_headers(&config(false), "c2lnbg==".to_string(), TS);
    assert_eq!(
        headers,
        vec![
            pair("OK-ACCESS-KEY", "test_key"),
            pair("OK-ACCESS-SIGN", "c2lnbg=="),
            pair("OK-ACCESS-TIMESTAMP", TS),
            pair("OK-ACCESS-PASSPHRASE", "test_passphrase"),
            pair("Content-Type", "application/json"),
        ]
    );
}

#[test]
fn headers_with_sandbox_mark_simulated_trading() {
    let headers = build_headers(&config(true), "c2lnbg==".to_string(), TS);
    assert_eq!(headers.len(), 6);
    assert_eq!(headers[5], pair("x-simulated-trading", "1"));
    assert_eq!(headers[0], pair("OK-ACCESS-KEY", "test_key"));
}

#[test]
fn prepared_get_is_signed_with_the_timestamp_that_is_sent() {
    let mut query = QueryParams::new();
    query.insert("instType".to_string(), "SWAP".to_string());
    query.insert("instId".to_string(), "BTC-USD-SWAP".to_string());
    let request =
        prepare_request(&config(false), "GET", "/api/v5/account/positions", Some(&query), None, TS).unwrap();
    assert_eq!(request.method, HttpMethod::Get);
    assert_eq!(request.url, "https://www.okx.com/api/v5/account/positions");
    assert_eq!(request.query, vec![pair("instId", "BTC-USD-SWAP"), pair("instType", "SWAP")]);
    assert_eq!(request.timestamp, TS);
    assert_eq!(
        request.headers,
        vec![
            pair("OK-ACCESS-KEY", "test_key"),
            pair("OK-ACCESS-SIGN", "4OXvIpq0HPcR0y78BAXHbseuuf6goS6kBMFkAN2Njs0="),
            pair("OK-ACCESS-TIMESTAMP", TS),
            pair("OK-ACCESS-PASSPHRASE", "test_passphrase"),
            pair("Content-Type", "application/json"),
        ]
    );
    assert!(request.body.is_none());
}

#[test]
fn the_body_takes_no_part_in_the_signature() {
    let client = OkxClient::new(config(false));
    let with_body = client
        .prepare_post("/api/v5/trade/order", Some("{\"sz\":\"1\"}".to_string()), TS)
        .unwrap();
    let without_body = client.prepare_post("/api/v5/trade/order", None, TS).unwrap();
    assert_eq!(with_body.method, HttpMethod::Post);
    assert_eq!(with_body.body, Some("{\"sz\":\"1\"}".to_string()));
    assert_eq!(without_body.body, None);
    assert_eq!(with_body.headers, without_body.headers);
    assert_eq!(with_body.headers[1], pair("OK-ACCESS-SIGN", "HjM8h5OfIQZZSfRyuECdv1+3qlLDiuotrVqHo+RZu9Y="));
    assert!(with_body.query.is_empty());
}

#[test]
fn client_prepares_what_the_pipeline_prepares() {
    let client = OkxClient::new(config(true));
    let by_client = client.prepare_get("/api/v5/account/config", None, TS).unwrap();
    let by_verb = client.prepare("GET", "/api/v5/account/config", None, None, TS).unwrap();
    let direct = prepare_request(&config(true), "GET", "/api/v5/account/config", None, None, TS).unwrap();
    assert_eq!(by_client.url, direct.url);
    assert_eq!(by_client.headers, direct.headers);
    assert_eq!(by_verb.headers, direct.headers);
    assert_eq!(by_client.headers.len(), 6);
}

#[test]
fn an_unsupported_method_prepares_nothing() {
    let client = OkxClient::new(config(false));
    match client.prepare("PATCH", "/api/v5/account/config", None, None, TS) {
        Err(ClientError::UnsupportedMethod { method }) => assert_eq!(method, "PATCH"),
        other => panic!("{:?}", other),
    }
    assert!(matches!(
        prepare_request(&config(false), "get", "/p", None, None, TS),
        Err(ClientError::UnsupportedMethod { .. })
    ));
}

#[test]
fn success_is_the_2xx_range() {
    for status in [200u16, 201, 204, 299] {
        assert!(status_is_success(status), "{}", status);
    }
    for status in [0u16, 100, 199, 300, 301, 400, 404, 429, 500, 503, 65535] {
        assert!(!status_is_success(status), "{}", status);
    }
}

#[test]
fn envelope_with_code_zero_is_a_payload() {
    let body = r#"{"code":"0","msg":"","data":[{"ccy":"BTC","bal":"1.5","availBal":"1.0","frozenBal":"0.5","acctType":"18"}]}"#;
    assert!(matches!(interpret_response(200, body), Ok(())));
}

#[test]
fn envelope_with_another_code_is_an_api_error() {
    let body = r#"{"code":"50001","msg":"rate limit exceeded","data":[]}"#;
    match interpret_response(200, body) {
        Err(ClientError::Api { code, msg }) => {
            assert_eq!(code, "50001");
            assert_eq!(msg, "rate limit exceeded");
        }
        other => panic!("{:?}", other),
    }
}

#[test]
fn api_error_wins_over_a_payload_of_another_shape() {
    let body = r#"{"code":"51000","msg":"Parameter error","data":{"unexpected":true}}"#;
    match interpret_response(200, body) {
        Err(ClientError::Api { code, msg }) => {
            assert_eq!(code, "51000");
            assert_eq!(msg, "Parameter error");
        }
        other => panic!("{:?}", other),
    }
}

#[test]
fn api_error_without_message_has_the_default_message() {
    for body in [r#"{"code":"1"}"#, r#"{"code":"1","msg":null}"#, r#"{"code":"1","msg":7}"#] {
        match interpret_response(200, body) {
            Err(ClientError::Api { code, msg }) => {
                assert_eq!(code, "1");
                assert_eq!(msg, "未知错误");
            }
            other => panic!("{:?}", other),
        }
    }
}

#[test]
fn only_the_string_zero_is_success() {
    for body in [r#"{"code":"00"}"#, r#"{"code":""}"#, r#"{"code":" 0"}"#, r#"{"code":"0.0"}"#] {
        assert!(matches!(interpret_response(200, body), Err(ClientError::Api { .. })), "{}", body);
    }
}

#[test]
fn a_status_outside_2xx_is_a_transport_error_with_the_raw_body() {
    for (status, body) in [
        (401u16, r#"{"code":"50111","msg":"Invalid OK-ACCESS-KEY"}"#),
        (500, "Internal Server Error"),
        (429, ""),
        (302, r#"{"code":"0","msg":"","data":[]}"#),
    ] {
        match interpret_response(status, body) {
            Err(ClientError::Transport { status: s, body: b }) => {
                assert_eq!(s, status);
                assert_eq!(b, body);
            }
            other => panic!("{:?}", other),
        }
    }
}

#[test]
fn a_body_that_is_not_json_is_a_deserialization_error() {
    for body in ["", "<html></html>", r#"{"code":"0""#, r#"{"code":"0"} trailing"#] {
        match interpret_response(200, body) {
            Err(ClientError::Deserialization { context }) => assert!(!context.is_empty()),
            other => panic!("{:?} for {:?}", other, body),
        }
    }
}

#[test]
fn an_envelope_without_a_string_code_is_a_deserialization_error() {
    for body in [r#"{"msg":"","data":[]}"#, r#"{"code":0,"msg":""}"#, r#"{"code":null}"#, "[]", "\"0\"", "0"] {
        assert!(
            matches!(interpret_response(200, body), Err(ClientError::Deserialization { .. })),
            "{}",
            body
        );
    }
}

#[test]
fn judging_an_envelope_by_its_head() {
    let head = |code: Option<&str>, msg: Option<&str>| EnvelopeHead {
        code: code.map(str::to_string),
        msg: msg.map(str::to_string),
    };
    assert!(matches!(judge_envelope(Ok(head(Some("0"), None))), Ok(())));
    assert!(matches!(judge_envelope(Ok(head(Some("0"), Some("ignored")))), Ok(())));
    match judge_envelope(Ok(head(Some("50001"), Some("rate limit exceeded")))) {
        Err(ClientError::Api { code, msg }) => {
            assert_eq!(code, "50001");
            assert_eq!(msg, "rate limit exceeded");
        }
        other => panic!("{:?}", other),
    }
    assert!(matches!(
        judge_envelope(Ok(head(None, Some("m")))),
        Err(ClientError::Deserialization { .. })
    ));
    match judge_envelope(Err("expected value at line 1 column 1".to_string())) {
        Err(ClientError::Deserialization { context }) => {
            assert_eq!(context, "expected value at line 1 column 1")
        }
        other => panic!("{:?}", other),
    }
}

#[test]
fn timestamp_shape() {
    assert!(is_valid_timestamp("2020-12-08T09:08:57.715Z"));
    assert!(is_valid_timestamp("0000-00-00T00:00:00.000Z"));
    assert!(is_valid_timestamp("9999-12-31T23:59:59.999Z"));
    for text in [
        "",
        "2020-12-08T09:08:57.715",
        "2020-12-08T09:08:57.715ZZ",
        "2020-12-08T09:08:57Z",
        "2020-12-08 09:08:57.715Z",
        "2020-12-08T09:08:57,715Z",
        "2020/12/08T09:08:57.715Z",
        "2020-12-08T09.08.57.715Z",
        "2020-12-08t09:08:57.715z",
        "202O-12-08T09:08:57.715Z",
        "2020-12-08T09:08:57.71５Z",
        "+12020-12-08T09:08:57.715Z",
        "2020-12-08T09:08:57.7150",
    ] {
        assert!(!is_valid_timestamp(text), "{:?}", text);
    }
}

#[test]
fn a_reading_with_the_shape_is_kept_as_it_is() {
    for text in ["2020-12-08T09:08:57.715Z", "0000-00-00T00:00:00.000Z", "9999-12-31T23:59:59.999Z"] {
        match timestamp_from(text.to_string()) {
            Ok(kept) => assert_eq!(kept, text),
            other => panic!("{:?} for {:?}", other, text),
        }
    }
}

#[test]
fn a_reading_without_the_shape_is_an_error_that_holds_it() {
    for text in ["", "2020-12-08T09:08:57Z", "+12020-12-08T09:08:57.715Z", "2020-12-08 09:08:57.715Z"] {
        match timestamp_from(text.to_string()) {
            Err(ClientError::Timestamp { text: held }) => assert_eq!(held, text),
            other => panic!("{:?} for {:?}", other, text),
        }
    }
}

#[test]
fn the_timestamp_pattern() {
    assert_eq!(TIMESTAMP_FORMAT, "%Y-%m-%dT%H:%M:%S.%3fZ");
}

#[test]
fn the_clock_gives_a_timestamp() {
    let text = get_timestamp().unwrap();
    assert!(is_valid_timestamp(&text));
    assert_eq!(text.len(), 24);
    assert!(text.as_str() > "2020-12-08T09:08:57.715Z");
    let client = OkxClient::new(config(false));
    let again = client.get_timestamp().unwrap();
    assert!(is_valid_timestamp(&again));
    assert!(again >= text);
}
