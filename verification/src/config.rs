//! Credentials and endpoint settings.

use vstd::prelude::*;
use crate::error::ClientError;
use crate::text::str_equal;

verus! {

/// Base URL of the exchange's REST interface.
pub const DEFAULT_BASE_URL: &'static str = "https://www.okx.com";

/// Name of the setting that holds the API key.
pub const API_KEY_VAR: &'static str = "OKX_API_KEY";

/// Name of the setting that holds the secret key.
pub const SECRET_KEY_VAR: &'static str = "OKX_SECRET_KEY";

/// Name of the setting that holds the passphrase.
pub const PASSPHRASE_VAR: &'static str = "OKX_PASSPHRASE";

/// Name of the setting that switches simulated trading on.
pub const SANDBOX_VAR: &'static str = "OKX_SANDBOX";

/// Credentials and endpoint settings shared, read-only, by every request.
#[derive(Debug, Clone)]
pub struct Config {
    pub api_key: String,
    pub secret_key: String,
    pub passphrase: String,
    pub base_url: String,
    pub is_sandbox: bool,
}

/// Simulated trading is on exactly for the setting `true`.
pub open spec fn sandbox_flag(setting: Option<String>) -> bool {
    setting matches Some(text) && text@ == "true"@
}

/// `result` reports that the setting `variable` is missing.
pub open spec fn reports_missing(result: Result<Config, ClientError>, variable: Seq<char>) -> bool {
    result matches Err(ClientError::Config { variable: name }) && name@ == variable
}

impl Config {
    /// The configuration that the settings stand for. The three secrets are
    /// required; the first that is missing, in the order API key, secret key,
    /// passphrase, is reported.
    pub fn from_values(
        api_key: Option<String>,
        secret_key: Option<String>,
        passphrase: Option<String>,
        sandbox: Option<String>,
    ) -> (result: Result<Config, ClientError>)
        ensures
            match (api_key, secret_key, passphrase) {
                (None, _, _) => reports_missing(result, API_KEY_VAR@),
                (Some(_), None, _) => reports_missing(result, SECRET_KEY_VAR@),
                (Some(_), Some(_), None) => reports_missing(result, PASSPHRASE_VAR@),
                (Some(key), Some(secret), Some(phrase)) => result matches Ok(config) && config.api_key
                    == key && config.secret_key == secret && config.passphrase == phrase
                    && config.base_url@ == DEFAULT_BASE_URL@ && config.is_sandbox == sandbox_flag(
                    sandbox,
                ),
            },
    {
        let api_key = match api_key {
            Some(key) => key,
            None => {
                return Err(ClientError::Config { variable: API_KEY_VAR.to_owned() });
            },
        };
        let secret_key = match secret_key {
            Some(secret) => secret,
            None => {
                return Err(ClientError::Config { variable: SECRET_KEY_VAR.to_owned() });
            },
        };
        let passphrase = match passphrase {
            Some(phrase) => phrase,
            None => {
                return Err(ClientError::Config { variable: PASSPHRASE_VAR.to_owned() });
            },
        };
        let is_sandbox = match &sandbox {
            Some(text) => str_equal(text.as_str(), "true"),
            None => false,
        };
        Ok(Config { api_key, secret_key, passphrase, base_url: DEFAULT_BASE_URL.to_owned(), is_sandbox })
    }
}

} // verus!
