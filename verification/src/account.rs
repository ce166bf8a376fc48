//! The account endpoints: balance and configuration.

use vstd::prelude::*;
use crate::client::{prepare_request, HttpMethod, SignedRequest};
use crate::config::Config;
use crate::error::ClientError;
use crate::query::QueryParams;

verus! {

/// Path of the balance endpoint.
pub const BALANCE_PATH: &'static str = "/api/v5/account/balance";

/// Path of the account configuration endpoint.
pub const ACCOUNT_CONFIG_PATH: &'static str = "/api/v5/account/config";

/// The balance of one currency.
#[derive(Debug)]
pub struct AccountBalance {
    /// Currency.
    pub ccy: Option<String>,
    /// Available balance.
    pub avail_bal: Option<String>,
    /// Balance.
    pub bal: Option<String>,
    /// Frozen balance.
    pub frozen_bal: Option<String>,
    /// Account type.
    pub acct_type: Option<String>,
}

/// The configuration of the account.
#[derive(Debug)]
pub struct AccountConfig {
    /// Account ID.
    pub acct_id: Option<String>,
    /// Account type.
    pub acct_type: Option<String>,
    /// Currency.
    pub ccy: Option<String>,
    /// Whether trading is enabled.
    pub trading_enabled: Option<bool>,
    /// Whether withdrawal is enabled.
    pub withdraw_enabled: Option<bool>,
    /// Whether deposit is enabled.
    pub deposit_enabled: Option<bool>,
}

/// The query that asks for the balance of one currency.
pub fn balance_query(ccy: &str) -> (query: QueryParams)
    ensures
        query.wf(),
        query@ == Map::<Seq<char>, Seq<char>>::empty().insert("ccy"@, ccy@),
{
    let mut query = QueryParams::new();
    query.insert("ccy".to_owned(), ccy.to_owned());
    query
}

/// The signed request for the balances of all currencies: no query.
pub fn balance_request(config: &Config, timestamp: &str) -> (result: Result<
    SignedRequest,
    ClientError,
>)
    ensures
        result matches Ok(request) && request.is_for(
            config,
            HttpMethod::Get,
            "GET"@,
            BALANCE_PATH@,
            Map::empty(),
            None,
            timestamp@,
        ),
{
    prepare_request(config, "GET", BALANCE_PATH, None, None, timestamp)
}

/// The signed request for the balance of the currency `ccy`.
pub fn balance_by_currency_request(config: &Config, ccy: &str, timestamp: &str) -> (result: Result<
    SignedRequest,
    ClientError,
>)
    ensures
        result matches Ok(request) && request.is_for(
            config,
            HttpMethod::Get,
            "GET"@,
            BALANCE_PATH@,
            Map::<Seq<char>, Seq<char>>::empty().insert("ccy"@, ccy@),
            None,
            timestamp@,
        ),
{
    let query = balance_query(ccy);
    prepare_request(config, "GET", BALANCE_PATH, Some(&query), None, timestamp)
}

/// The signed request for the account configuration: no query.
pub fn account_config_request(config: &Config, timestamp: &str) -> (result: Result<
    SignedRequest,
    ClientError,
>)
    ensures
        result matches Ok(request) && request.is_for(
            config,
            HttpMethod::Get,
            "GET"@,
            ACCOUNT_CONFIG_PATH@,
            Map::empty(),
            None,
            timestamp@,
        ),
{
    prepare_request(config, "GET", ACCOUNT_CONFIG_PATH, None, None, timestamp)
}

} // verus!
