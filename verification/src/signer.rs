//! Request signing: the canonical string to sign and its keyed hash.

use vstd::prelude::*;
use vstd::string::*;
use vstd::utf8::*;
use hmac::crypto_mac::InvalidKeyLength;
use hmac::{Hmac, Mac, NewMac};
use sha2::Sha256;
use crate::error::ClientError;
use crate::query::{
    canonical_query, keys_ascending, lemma_ascending_is_sorted, pairs_to_map, render_pairs, Pair,
    QueryParams,
};

verus! {

/// The HMAC-SHA256 tag of `message` under `key`.
pub uninterp spec fn hmac_sha256(key: Seq<u8>, message: Seq<u8>) -> Seq<u8>;

/// The base64 text of `bytes`: standard alphabet, with padding.
pub uninterp spec fn base64_standard(bytes: Seq<u8>) -> Seq<char>;

#[verifier::external_type_specification]
#[verifier::external_body]
pub struct ExInvalidKeyLength(InvalidKeyLength);

/// Computes HMAC-SHA256 with `Hmac::<Sha256>::new_from_slice`, `update`,
/// `finalize` and `into_bytes`. Trusted: the key is accepted whatever its
/// length, the tag is the one the name stands for, and it has 32 bytes.
#[verifier::external_body]
fn keyed_hash(key: &[u8], message: &[u8]) -> (tag: Result<Vec<u8>, InvalidKeyLength>)
    ensures
        tag is Ok,
        tag.unwrap()@ == hmac_sha256(key@, message@),
        tag.unwrap()@.len() == 32,
{
    let mut mac = Hmac::<Sha256>::new_from_slice(key)?;
    mac.update(message);
    Ok(mac.finalize().into_bytes().to_vec())
}

/// Encodes with `base64::encode`. Trusted: the text is the one the name
/// stands for. The length bound keeps the encoder's size computation from
/// overflowing, on which it would panic.
#[verifier::external_body]
fn base64_encode(bytes: &[u8]) -> (text: String)
    requires
        bytes@.len() / 3 * 4 + 4 <= usize::MAX,
    ensures
        text@ == base64_standard(bytes@),
{
    base64::encode(bytes)
}

/// The mapping that optional query parameters stand for.
pub open spec fn query_of(params: Option<&QueryParams>) -> Map<Seq<char>, Seq<char>> {
    match params {
        Some(q) => q@,
        None => Map::empty(),
    }
}

/// The string that is signed: timestamp, method and path, then, for a
/// query that is not empty, `?` and the pairs by ascending key.
pub open spec fn sign_string(
    timestamp: Seq<char>,
    method: Seq<char>,
    path: Seq<char>,
    query: Map<Seq<char>, Seq<char>>,
) -> Seq<char> {
    if query == Map::<Seq<char>, Seq<char>>::empty() {
        timestamp + method + path
    } else {
        timestamp + method + path + seq!['?'] + canonical_query(query)
    }
}

/// The signature: base64 of the HMAC-SHA256 of the string to sign, keyed by the secret.
pub open spec fn signature(
    secret: Seq<char>,
    timestamp: Seq<char>,
    method: Seq<char>,
    path: Seq<char>,
    query: Map<Seq<char>, Seq<char>>,
) -> Seq<char> {
    base64_standard(
        hmac_sha256(encode_utf8(secret), encode_utf8(sign_string(timestamp, method, path, query))),
    )
}

/// `result` is the signature of the given call.
pub open spec fn is_signature_of(
    result: Result<String, ClientError>,
    secret: Seq<char>,
    timestamp: Seq<char>,
    method: Seq<char>,
    path: Seq<char>,
    query: Map<Seq<char>, Seq<char>>,
) -> bool {
    result matches Ok(text) && text@ == signature(secret, timestamp, method, path, query)
}

/// Signing is a function of its inputs: two signatures of the same secret,
/// timestamp, method, path and query are the same text.
pub proof fn lemma_signature_deterministic(
    first: Result<String, ClientError>,
    second: Result<String, ClientError>,
    secret: Seq<char>,
    timestamp: Seq<char>,
    method: Seq<char>,
    path: Seq<char>,
    query: Map<Seq<char>, Seq<char>>,
)
    requires
        is_signature_of(first, secret, timestamp, method, path, query),
        is_signature_of(second, secret, timestamp, method, path, query),
    ensures
        first is Ok,
        second is Ok,
        first.unwrap()@ == second.unwrap()@,
{
}

/// The order in which two different keys are inserted changes neither the
/// query nor the string that is signed.
pub proof fn lemma_insertion_order(
    base: Map<Seq<char>, Seq<char>>,
    first: Pair,
    second: Pair,
    timestamp: Seq<char>,
    method: Seq<char>,
    path: Seq<char>,
)
    requires
        first.0 != second.0,
    ensures
        base.insert(first.0, first.1).insert(second.0, second.1) == base.insert(
            second.0,
            second.1,
        ).insert(first.0, first.1),
        sign_string(
            timestamp,
            method,
            path,
            base.insert(first.0, first.1).insert(second.0, second.1),
        ) == sign_string(
            timestamp,
            method,
            path,
            base.insert(second.0, second.1).insert(first.0, first.1),
        ),
{
    assert(base.insert(first.0, first.1).insert(second.0, second.1) =~= base.insert(
        second.0,
        second.1,
    ).insert(first.0, first.1));
}

/// The string that is signed lists the pairs of the query by ascending
/// key: for pairs given in that order it is timestamp, method and path,
/// then, if there is a pair, `?` and the pairs as given.
pub proof fn lemma_sign_string_sorted(
    pairs: Seq<Pair>,
    timestamp: Seq<char>,
    method: Seq<char>,
    path: Seq<char>,
)
    requires
        keys_ascending(pairs),
    ensures
        sign_string(timestamp, method, path, pairs_to_map(pairs)) == if pairs.len() == 0 {
            timestamp + method + path
        } else {
            timestamp + method + path + seq!['?'] + render_pairs(pairs)
        },
{
    lemma_ascending_is_sorted(pairs);
    if pairs.len() == 0 {
        assert(pairs_to_map(pairs) =~= Map::<Seq<char>, Seq<char>>::empty());
    } else {
        crate::query::lemma_ascending_index(pairs, 0);
    }
}

/// Builds the string to sign.
pub fn build_sign_string(
    timestamp: &str,
    method: &str,
    endpoint: &str,
    params: Option<&QueryParams>,
) -> (text: String)
    requires
        params matches Some(q) ==> q.wf(),
    ensures
        text@ == sign_string(timestamp@, method@, endpoint@, query_of(params)),
{
    let mut text = String::new();
    text.append(timestamp);
    text.append(method);
    text.append(endpoint);
    assert(text@ =~= timestamp@ + method@ + endpoint@);
    if let Some(q) = params {
        if !q.is_empty() {
            let rendered = q.to_query_string();
            proof {
                reveal_strlit("?");
            }
            text.append("?");
            text.append(rendered.as_str());
        }
    }
    text
}

/// Signs a request with `secret_key`. Signing does not fail: the keyed hash
/// takes a key of any length.
pub fn sign(
    secret_key: &str,
    timestamp: &str,
    method: &str,
    endpoint: &str,
    params: Option<&QueryParams>,
) -> (result: Result<String, ClientError>)
    requires
        params matches Some(q) ==> q.wf(),
    ensures
        is_signature_of(result, secret_key@, timestamp@, method@, endpoint@, query_of(params)),
{
    let text = build_sign_string(timestamp, method, endpoint, params);
    match keyed_hash(secret_key.as_bytes(), text.as_str().as_bytes()) {
        Ok(tag) => Ok(base64_encode(tag.as_slice())),
        Err(_) => Err(ClientError::Signing),
    }
}

} // verus!
