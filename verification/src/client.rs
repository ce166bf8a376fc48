//! The request pipeline: what is sent for a call, and what its answer means.

use vstd::prelude::*;
use vstd::string::*;
use crate::config::Config;
use crate::error::ClientError;
use crate::query::{pair_views, sorted_pairs, Pair, QueryParams};
use crate::rate_limiter::{RateLimiter, WaitDecision, DEFAULT_MAX_REQUESTS, DEFAULT_WINDOW_NANOS};
use crate::signer::{query_of, sign, signature};

verus! {

/// The HTTP methods that the pipeline sends.
#[derive(Debug, Clone, Copy, PartialEq, Eq)]
pub enum HttpMethod {
    Get,
    Post,
}

/// The method that a verb names, if the pipeline sends it.
pub open spec fn method_of(verb: Seq<char>) -> Option<HttpMethod> {
    if verb == "GET"@ {
        Some(HttpMethod::Get)
    } else if verb == "POST"@ {
        Some(HttpMethod::Post)
    } else {
        None
    }
}

/// The headers of a signed request, in the order in which they are attached.
pub open spec fn auth_headers(
    api_key: Seq<char>,
    signature: Seq<char>,
    timestamp: Seq<char>,
    passphrase: Seq<char>,
    sandbox: bool,
) -> Seq<Pair> {
    let always = seq![
        ("OK-ACCESS-KEY"@, api_key),
        ("OK-ACCESS-SIGN"@, signature),
        ("OK-ACCESS-TIMESTAMP"@, timestamp),
        ("OK-ACCESS-PASSPHRASE"@, passphrase),
        ("Content-Type"@, "application/json"@),
    ];
    if sandbox {
        always.push(("x-simulated-trading"@, "1"@))
    } else {
        always
    }
}

/// Everything that is needed to send one call: built per call, never kept.
#[derive(Debug)]
pub struct SignedRequest {
    pub method: HttpMethod,
    pub url: String,
    /// The query pairs, by ascending key.
    pub query: Vec<(String, String)>,
    /// The headers, authentication included.
    pub headers: Vec<(String, String)>,
    pub timestamp: String,
    /// The body, which takes no part in the signature.
    pub body: Option<String>,
}

impl SignedRequest {
    /// This is the request for the given call, signed at `timestamp` with the credentials of `config`.
    pub open spec fn is_for(
        &self,
        config: &Config,
        method: HttpMethod,
        verb: Seq<char>,
        endpoint: Seq<char>,
        query: Map<Seq<char>, Seq<char>>,
        body: Option<String>,
        timestamp: Seq<char>,
    ) -> bool {
        &&& self.method == method
        &&& self.url@ == config.base_url@ + endpoint
        &&& pair_views(self.query@) == sorted_pairs(query)
        &&& pair_views(self.headers@) == auth_headers(
            config.api_key@,
            signature(config.secret_key@, timestamp, verb, endpoint, query),
            timestamp,
            config.passphrase@,
            config.is_sandbox,
        )
        &&& self.timestamp@ == timestamp
        &&& self.body == body
    }
}

/// Reads the HTTP verb of a call.
pub fn parse_method(verb: &str) -> (result: Result<HttpMethod, ClientError>)
    ensures
        match method_of(verb@) {
            Some(method) => result == Ok::<HttpMethod, ClientError>(method),
            None => result matches Err(ClientError::UnsupportedMethod { method }) && method@ == verb@,
        },
{
    if crate::text::str_equal(verb, "GET") {
        Ok(HttpMethod::Get)
    } else if crate::text::str_equal(verb, "POST") {
        Ok(HttpMethod::Post)
    } else {
        Err(ClientError::UnsupportedMethod { method: verb.to_owned() })
    }
}

/// The address of an endpoint: the base URL, then the path.
pub fn build_url(base_url: &str, endpoint: &str) -> (url: String)
    ensures
        url@ == base_url@ + endpoint@,
{
    let mut url = base_url.to_owned();
    url.append(endpoint);
    url
}

/// The headers that authenticate a request signed at `timestamp`.
pub fn build_headers(config: &Config, signature: String, timestamp: &str) -> (headers: Vec<
    (String, String),
>)
    ensures
        pair_views(headers@) == auth_headers(
            config.api_key@,
            signature@,
            timestamp@,
            config.passphrase@,
            config.is_sandbox,
        ),
{
    let mut headers: Vec<(String, String)> = Vec::new();
    headers.push(("OK-ACCESS-KEY".to_owned(), config.api_key.clone()));
    headers.push(("OK-ACCESS-SIGN".to_owned(), signature));
    headers.push(("OK-ACCESS-TIMESTAMP".to_owned(), timestamp.to_owned()));
    headers.push(("OK-ACCESS-PASSPHRASE".to_owned(), config.passphrase.clone()));
    headers.push(("Content-Type".to_owned(), "application/json".to_owned()));
    if config.is_sandbox {
        headers.push(("x-simulated-trading".to_owned(), "1".to_owned()));
    }
    assert(pair_views(headers@) =~= auth_headers(
        config.api_key@,
        signature@,
        timestamp@,
        config.passphrase@,
        config.is_sandbox,
    ));
    headers
}

/// Builds and signs the request for one call. The timestamp that is signed
/// is the one that is sent.
pub fn prepare_request(
    config: &Config,
    method: &str,
    endpoint: &str,
    params: Option<&QueryParams>,
    body: Option<String>,
    timestamp: &str,
) -> (result: Result<SignedRequest, ClientError>)
    requires
        params matches Some(q) ==> q.wf(),
    ensures
        match method_of(method@) {
            Some(m) => result matches Ok(request) && request.is_for(
                config,
                m,
                method@,
                endpoint@,
                query_of(params),
                body,
                timestamp@,
            ),
            None => result matches Err(ClientError::UnsupportedMethod { method: verb }) && verb@
                == method@,
        },
{
    let parsed = match parse_method(method) {
        Ok(parsed) => parsed,
        Err(e) => {
            return Err(e);
        },
    };
    let url = build_url(config.base_url.as_str(), endpoint);
    let query = match params {
        Some(q) => q.to_pairs(),
        None => {
            let empty: Vec<(String, String)> = Vec::new();
            proof {
                crate::query::lemma_ascending_is_sorted(Seq::<Pair>::empty());
                assert(crate::query::pairs_to_map(Seq::<Pair>::empty()) =~= Map::<
                    Seq<char>,
                    Seq<char>,
                >::empty());
                assert(pair_views(empty@) =~= Seq::<Pair>::empty());
            }
            empty
        },
    };
    let signed = match sign(config.secret_key.as_str(), timestamp, method, endpoint, params) {
        Ok(signed) => signed,
        Err(e) => {
            return Err(e);
        },
    };
    let headers = build_headers(config, signed, timestamp);
    Ok(SignedRequest { method: parsed, url, query, headers, timestamp: timestamp.to_owned(), body })
}

/// The shape of a timestamp: `YYYY-MM-DDTHH:MM:SS.mmmZ`.
pub open spec fn is_timestamp(text: Seq<char>) -> bool {
    &&& text.len() == 24
    &&& forall|i: int| 0 <= i < 24 ==> timestamp_char(i, #[trigger] text[i])
}

/// Whether `c` may stand at place `i` of a timestamp.
pub open spec fn timestamp_char(i: int, c: char) -> bool {
    if i == 4 || i == 7 {
        c == '-'
    } else if i == 10 {
        c == 'T'
    } else if i == 13 || i == 16 {
        c == ':'
    } else if i == 19 {
        c == '.'
    } else if i == 23 {
        c == 'Z'
    } else {
        '0' <= c && c <= '9'
    }
}

/// The pattern that renders a timestamp: year, month and day, `T`, the
/// time of day with milliseconds, `Z`.
pub const TIMESTAMP_FORMAT: &'static str = "%Y-%m-%dT%H:%M:%S.%3fZ";

/// Reads the wall clock with `chrono::Utc::now` and renders it with
/// `format` under the pattern given. Only the timestamp pattern is taken:
/// on a pattern that chrono cannot read the rendering fails and
/// `to_string` panics. Nothing is claimed of the text.
#[verifier::external_body]
fn utc_now_text(format: &str) -> String
    requires
        format@ == TIMESTAMP_FORMAT@,
{
    chrono::Utc::now().format(format).to_string()
}

/// Whether `text` has the shape of a timestamp.
pub fn is_valid_timestamp(text: &str) -> (ok: bool)
    ensures
        ok == is_timestamp(text@),
{
    if text.unicode_len() != 24 {
        return false;
    }
    let mut i: usize = 0;
    while i < 24
        invariant
            i <= 24,
            text@.len() == 24,
            forall|j: int| 0 <= j < i ==> timestamp_char(j, #[trigger] text@[j]),
        decreases 24 - i,
    {
        let c = text.get_char(i);
        let ok = if i == 4 || i == 7 {
            c == '-'
        } else if i == 10 {
            c == 'T'
        } else if i == 13 || i == 16 {
            c == ':'
        } else if i == 19 {
            c == '.'
        } else if i == 23 {
            c == 'Z'
        } else {
            '0' <= c && c <= '9'
        };
        if !ok {
            assert(!timestamp_char(i as int, text@[i as int]));
            return false;
        }
        i += 1;
    }
    true
}

/// Accepts a reading of the clock as a timestamp: the text itself if it
/// has the shape of a timestamp, else an error that holds the text.
pub fn timestamp_from(text: String) -> (result: Result<String, ClientError>)
    ensures
        match result {
            Ok(kept) => is_timestamp(text@) && kept == text,
            Err(ClientError::Timestamp { text: held }) => !is_timestamp(text@) && held == text,
            Err(_) => false,
        },
{
    if is_valid_timestamp(text.as_str()) {
        Ok(text)
    } else {
        Err(ClientError::Timestamp { text })
    }
}

/// The current UTC time as the text that is signed and sent. A reading
/// that does not have the shape of a timestamp is an error.
pub fn get_timestamp() -> (result: Result<String, ClientError>)
    ensures
        match result {
            Ok(text) => is_timestamp(text@),
            Err(e) => e is Timestamp,
        },
{
    timestamp_from(utc_now_text(TIMESTAMP_FORMAT))
}

/// The two members of a response envelope that are read before its payload.
#[derive(Debug)]
pub struct EnvelopeHead {
    /// The member `code`, where it is a string.
    pub code: Option<String>,
    /// The member `msg`, where it is a string.
    pub msg: Option<String>,
}

/// The characters of an optional string.
pub open spec fn text_of(s: Option<String>) -> Option<Seq<char>> {
    match s {
        Some(t) => Some(t@),
        None => None,
    }
}

#[verifier::external_type_specification]
#[verifier::external_body]
pub struct ExJsonError(serde_json::Error);

#[verifier::external_type_specification]
#[verifier::external_body]
pub struct ExJsonValue(serde_json::Value);

/// The string members that a JSON value holds: for an object, each member
/// whose value is a string, with that string; for any other value, none.
pub uninterp spec fn string_members(value: serde_json::Value) -> Map<Seq<char>, Seq<char>>;

/// What a text holds, read as JSON: nothing if the parser refuses it, else
/// the string members of the value it stands for.
pub uninterp spec fn json_string_members(body: Seq<char>) -> Option<Map<Seq<char>, Seq<char>>>;

/// Parses a text with `serde_json::from_str` into a `Value`. Trusted: it
/// succeeds exactly on the texts for which the name gives members, and
/// the value then holds those members. The parser refuses what is not
/// JSON, and JSON that is nested deeper than its limit.
#[verifier::external_body]
fn parse_json(body: &str) -> (parsed: Result<serde_json::Value, serde_json::Error>)
    ensures
        parsed is Ok <==> json_string_members(body@) is Some,
        parsed is Ok ==> json_string_members(body@) == Some(string_members(parsed.unwrap())),
{
    serde_json::from_str(body)
}

/// Reads a member of a value by index and `as_str`. Trusted: the result
/// is the member's string exactly where the value is an object that has
/// the member as a string; indexing anything else gives null, not a panic.
#[verifier::external_body]
fn string_member(value: &serde_json::Value, member: &str) -> (text: Option<String>)
    ensures
        text is Some <==> string_members(*value).contains_key(member@),
        text is Some ==> text.unwrap()@ == string_members(*value)[member@],
{
    value[member].as_str().map(str::to_owned)
}

/// The member `name` of `members`, if there is one.
pub open spec fn member_of(members: Map<Seq<char>, Seq<char>>, name: Seq<char>) -> Option<Seq<char>> {
    if members.contains_key(name) {
        Some(members[name])
    } else {
        None
    }
}

/// The head of an envelope with the given string members: its `code` and its `msg`.
pub open spec fn head_of(members: Option<Map<Seq<char>, Seq<char>>>) -> Option<
    (Option<Seq<char>>, Option<Seq<char>>),
> {
    match members {
        None => None,
        Some(m) => Some((member_of(m, "code"@), member_of(m, "msg"@))),
    }
}

/// The text of a parse error, by its `Display`. Nothing is claimed of it.
#[verifier::external_body]
fn json_error_text(error: &serde_json::Error) -> String {
    error.to_string()
}

/// The message of an application error whose envelope has no `msg`.
pub open spec fn api_message(msg: Option<Seq<char>>) -> Seq<char> {
    match msg {
        Some(text) => text,
        None => "未知错误"@,
    }
}

/// What the answer to a call means, before its payload is read.
pub enum Outcome {
    /// The envelope reports success: its payload is the result.
    Payload,
    /// The server answered outside the 2xx range.
    Transport { status: u16, body: Seq<char> },
    /// The envelope reports a failure of the application.
    Api { code: Seq<char>, msg: Seq<char> },
    /// The body is not JSON, or not an envelope.
    Malformed,
}

/// A status in the 2xx range.
pub open spec fn is_success(status: u16) -> bool {
    200 <= status < 300
}

/// What an envelope means: success is the code `"0"` and nothing else.
pub open spec fn envelope_outcome(head: Option<(Option<Seq<char>>, Option<Seq<char>>)>) -> Outcome {
    match head {
        None => Outcome::Malformed,
        Some((None, _)) => Outcome::Malformed,
        Some((Some(code), msg)) => if code == "0"@ {
            Outcome::Payload
        } else {
            (Outcome::Api { code, msg: api_message(msg) })
        },
    }
}

/// What an answer means: the status decides first, then the envelope.
pub open spec fn response_outcome(
    status: u16,
    body: Seq<char>,
    head: Option<(Option<Seq<char>>, Option<Seq<char>>)>,
) -> Outcome {
    if !is_success(status) {
        (Outcome::Transport { status, body })
    } else {
        envelope_outcome(head)
    }
}

/// `result` reports `outcome`.
pub open spec fn reports(result: Result<(), ClientError>, outcome: Outcome) -> bool {
    match outcome {
        Outcome::Payload => result is Ok,
        Outcome::Transport { status, body } => result matches Err(
            ClientError::Transport { status: s, body: b },
        ) && s == status && b@ == body,
        Outcome::Api { code, msg } => result matches Err(ClientError::Api { code: c, msg: m }) && c@
            == code && m@ == msg,
        Outcome::Malformed => result matches Err(ClientError::Deserialization { .. }),
    }
}

/// An envelope is a success exactly when its `code` is the string `"0"`.
pub proof fn lemma_success_is_code_zero(
    result: Result<(), ClientError>,
    head: Option<(Option<Seq<char>>, Option<Seq<char>>)>,
)
    requires
        reports(result, envelope_outcome(head)),
    ensures
        result is Ok <==> (head matches Some((Some(code), _)) && code == "0"@),
{
}

/// Whether a status is in the 2xx range.
pub fn status_is_success(status: u16) -> (ok: bool)
    ensures
        ok == is_success(status),
{
    200 <= status && status < 300
}

/// Judges an envelope by its head: `parsed` is the head, or why the body
/// could not be read.
pub fn judge_envelope(parsed: Result<EnvelopeHead, String>) -> (result: Result<(), ClientError>)
    ensures
        match parsed {
            Ok(head) => reports(result, envelope_outcome(Some((text_of(head.code), text_of(head.msg))))),
            Err(context) => result matches Err(ClientError::Deserialization { context: c }) && c
                == context,
        },
{
    match parsed {
        Err(context) => Err(ClientError::Deserialization { context }),
        Ok(head) => match head.code {
            None => Err(
                ClientError::Deserialization { context: "the envelope has no code".to_owned() },
            ),
            Some(code) => {
                if crate::text::str_equal(code.as_str(), "0") {
                    Ok(())
                } else {
                    let msg = match head.msg {
                        Some(text) => text,
                        None => "未知错误".to_owned(),
                    };
                    Err(ClientError::Api { code, msg })
                }
            },
        },
    }
}

/// Judges the answer to a call: a status outside the 2xx range is a
/// transport failure with the raw body; else the body is read as JSON and
/// its `code` decides between the payload and an application error.
pub fn interpret_response(status: u16, body: &str) -> (result: Result<(), ClientError>)
    ensures
        reports(result, response_outcome(status, body@, head_of(json_string_members(body@)))),
{
    if !status_is_success(status) {
        return Err(ClientError::Transport { status, body: body.to_owned() });
    }
    let parsed = match parse_json(body) {
        Ok(value) => Ok(
            EnvelopeHead { code: string_member(&value, "code"), msg: string_member(&value, "msg") },
        ),
        Err(e) => Err(json_error_text(&e)),
    };
    judge_envelope(parsed)
}

/// The client of one set of credentials: its settings and its rate limiter.
pub struct OkxClient {
    pub config: Config,
    pub rate_limiter: RateLimiter,
}

impl OkxClient {
    /// A client with the default rate limit and no recorded request.
    pub fn new(config: Config) -> (client: Self)
        ensures
            client.config == config,
            client.rate_limiter.wf(),
            client.rate_limiter.limit() == DEFAULT_MAX_REQUESTS,
            client.rate_limiter.window() == DEFAULT_WINDOW_NANOS,
            forall|key: Seq<char>| #[trigger] client.rate_limiter.history(key) == Seq::<u128>::empty(),
    {
        OkxClient { config, rate_limiter: RateLimiter::new(DEFAULT_MAX_REQUESTS, DEFAULT_WINDOW_NANOS) }
    }

    /// Signs a call with the client's secret.
    pub fn generate_signature(
        &self,
        method: &str,
        endpoint: &str,
        params: Option<&QueryParams>,
        timestamp: &str,
    ) -> (result: Result<String, ClientError>)
        requires
            params matches Some(q) ==> q.wf(),
        ensures
            result matches Ok(text) && text@ == signature(
                self.config.secret_key@,
                timestamp@,
                method@,
                endpoint@,
                query_of(params),
            ),
    {
        sign(self.config.secret_key.as_str(), timestamp, method, endpoint, params)
    }

    /// The current UTC time as the text that is signed and sent.
    pub fn get_timestamp(&self) -> (result: Result<String, ClientError>)
        ensures
            match result {
                Ok(text) => is_timestamp(text@),
                Err(e) => e is Timestamp,
            },
    {
        get_timestamp()
    }

    /// One turn of waiting for a slot of the client's API key, at the
    /// instant that the limiter's clock shows.
    pub fn wait_step(&mut self) -> (decision: WaitDecision)
        ensures
            final(self).config == old(self).config,
            exists|now: u128|
                old(self).rate_limiter.waited(
                    &final(self).rate_limiter,
                    old(self).config.api_key@,
                    now,
                    decision,
                ),
            old(self).rate_limiter.wf() ==> final(self).rate_limiter.wf(),
    {
        let ghost before = self.rate_limiter;
        let decision = self.rate_limiter.wait_step(self.config.api_key.as_str());
        proof {
            let now = choose|now: u128|
                before.waited(&self.rate_limiter, self.config.api_key@, now, decision);
            assert(before.waited(&self.rate_limiter, self.config.api_key@, now, decision));
        }
        decision
    }

    /// The signed request of a call with the given verb.
    pub fn prepare(
        &self,
        method: &str,
        endpoint: &str,
        params: Option<&QueryParams>,
        body: Option<String>,
        timestamp: &str,
    ) -> (result: Result<SignedRequest, ClientError>)
        requires
            params matches Some(q) ==> q.wf(),
        ensures
            match method_of(method@) {
                Some(m) => result matches Ok(request) && request.is_for(
                    &self.config,
                    m,
                    method@,
                    endpoint@,
                    query_of(params),
                    body,
                    timestamp@,
                ),
                None => result matches Err(ClientError::UnsupportedMethod { method: verb }) && verb@
                    == method@,
            },
    {
        prepare_request(&self.config, method, endpoint, params, body, timestamp)
    }

    /// The signed request of a `GET` call: a query, no body.
    pub fn prepare_get(&self, endpoint: &str, params: Option<&QueryParams>, timestamp: &str) -> (result:
        Result<SignedRequest, ClientError>)
        requires
            params matches Some(q) ==> q.wf(),
        ensures
            result matches Ok(request) && request.is_for(
                &self.config,
                HttpMethod::Get,
                "GET"@,
                endpoint@,
                query_of(params),
                None,
                timestamp@,
            ),
    {
        prepare_request(&self.config, "GET", endpoint, params, None, timestamp)
    }

    /// The signed request of a `POST` call: a body, no query.
    pub fn prepare_post(&self, endpoint: &str, body: Option<String>, timestamp: &str) -> (result:
        Result<SignedRequest, ClientError>)
        ensures
            result matches Ok(request) && request.is_for(
                &self.config,
                HttpMethod::Post,
                "POST"@,
                endpoint@,
                Map::empty(),
                body,
                timestamp@,
            ),
    {
        proof {
            reveal_strlit("GET");
            reveal_strlit("POST");
            assert("GET"@.len() != "POST"@.len());
        }
        prepare_request(&self.config, "POST", endpoint, None, body, timestamp)
    }
}

/// A client with the default rate limit.
pub fn create_client(config: Config) -> (client: OkxClient)
    ensures
        client.config == config,
        client.rate_limiter.wf(),
        client.rate_limiter.limit() == DEFAULT_MAX_REQUESTS,
        client.rate_limiter.window() == DEFAULT_WINDOW_NANOS,
        forall|key: Seq<char>| #[trigger] client.rate_limiter.history(key) == Seq::<u128>::empty(),
{
    OkxClient::new(config)
}

} // verus!
