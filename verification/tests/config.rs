use okx_api_client::config::{
    Config, API_KEY_VAR, DEFAULT_BASE_URL, PASSPHRASE_VAR, SANDBOX_VAR, SECRET_KEY_VAR,
};
use okx_api_client::error::ClientError;

fn some(text: &str) -> Option<String> {
    Some(text.to_string())
}

fn missing(result: Result<Config, ClientError>) -> String {
    match result {
        Err(ClientError::Config { variable }) => variable,
        other => panic!("expected a missing setting, got {:?}", other),
    }
}

#[test]
fn settings_names() {
    assert_eq!(API_KEY_VAR, "OKX_API_KEY");
    assert_eq!(SECRET_KEY_VAR, "OKX_SECRET_KEY");
    assert_eq!(PASSPHRASE_VAR, "OKX_PASSPHRASE");
    assert_eq!(SANDBOX_VAR, "OKX_SANDBOX");
    assert_eq!(DEFAULT_BASE_URL, "https://www.okx.com");
}

#[test]
fn config_from_all_settings() {
    let config = Config::from_values(some("key"), some("secret"), some("phrase"), some("true")).unwrap();
    assert_eq!(config.api_key, "key");
    assert_eq!(config.secret_key, "secret");
    assert_eq!(config.passphrase, "phrase");
    assert_eq!(config.base_url, "https://www.okx.com");
    assert!(config.is_sandbox);
}

#[test]
fn sandbox_is_on_only_for_true() {
    for (setting, expected) in [
        (some("true"), true),
        (some("false"), false),
        (some("TRUE"), false),
        (some("1"), false),
        (some(""), false),
        (some(" true"), false),
        (None, false),
    ] {
        let config = Config::from_values(some("k"), some("s"), some("p"), setting.clone()).unwrap();
        assert_eq!(config.is_sandbox, expected, "{:?}", setting);
    }
}

#[test]
fn the_first_missing_secret_is_reported() {
    assert_eq!(missing(Config::from_values(None, some("s"), some("p"), None)), "OKX_API_KEY");
    assert_eq!(missing(Config::from_values(some("k"), None, some("p"), None)), "OKX_SECRET_KEY");
    assert_eq!(missing(Config::from_values(some("k"), some("s"), None, None)), "OKX_PASSPHRASE");
    assert_eq!(missing(Config::from_values(None, None, None, some("true"))), "OKX_API_KEY");
    assert_eq!(missing(Config::from_values(some("k"), None, None, None)), "OKX_SECRET_KEY");
}

#[test]
fn an_empty_secret_is_present() {
    let config = Config::from_values(some(""), some(""), some(""), None).unwrap();
    assert_eq!(config.api_key, "");
    assert!(!config.is_sandbox);
}
