use okx_api_client::account::{
    account_config_request, balance_by_currency_request, balance_query, balance_request,
    ACCOUNT_CONFIG_PATH, BALANCE_PATH,
};
use okx_api_client::client::HttpMethod;
use okx_api_client::config::Config;

fn config() -> Config {
    Config {
        api_key: "test_key".to_string(),
        secret_key: "test_secret".to_string(),
        passphrase: "test_passphrase".to_string(),
        base_url: "https://www.okx.com".to_string(),
        is_sandbox: false,
    }
}

fn header<'a>(headers: &'a [(String, String)], name: &str) -> &'a str {
    let found: Vec<&(String, String)> = headers.iter().filter(|h| h.0 == name).collect();
    assert_eq!(found.len(), 1, "{}", name);
    &found[0].1
}

#[test]
fn balance_query_holds_the_currency() {
    let query = balance_query("BTC");
    assert_eq!(query.len(), 1);
    assert_eq!(query.get("ccy"), Some(&"BTC".to_string()));
    assert_eq!(query.to_query_string(), "ccy=BTC");
}

#[test]
fn balance_request_has_no_query() {
    let request = balance_request(&config(), "2020-12-08T09:08:57.715Z").unwrap();
    assert_eq!(BALANCE_PATH, "/api/v5/account/balance");
    assert_eq!(request.method, HttpMethod::Get);
    assert_eq!(request.url, "https://www.okx.com/api/v5/account/balance");
    assert!(request.query.is_empty());
    assert!(request.body.is_none());
}

#[test]
fn balance_by_currency_request_signs_the_query() {
    let request = balance_by_currency_request(&config(), "BTC", "2020-12-08T09:08:57.715Z").unwrap();
    assert_eq!(request.url, "https://www.okx.com/api/v5/account/balance");
    assert_eq!(request.query, vec![("ccy".to_string(), "BTC".to_string())]);
    assert_eq!(
        header(&request.headers, "OK-ACCESS-SIGN"),
        "7ySiPVi/lhUA5KcmuyAYnW1qir695kDljxmxmNmQ1Sw="
    );
}

#[test]
fn account_config_request_has_no_query() {
    let request = account_config_request(&config(), "2020-12-08T09:08:57.715Z").unwrap();
    assert_eq!(ACCOUNT_CONFIG_PATH, "/api/v5/account/config");
    assert_eq!(request.method, HttpMethod::Get);
    assert_eq!(request.url, "https://www.okx.com/api/v5/account/config");
    assert!(request.query.is_empty());
    assert_eq!(header(&request.headers, "OK-ACCESS-KEY"), "test_key");
}
