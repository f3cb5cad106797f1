//! Reading tokens: the claims of a JWT, taken without checking its
//! signature, and the fields of JSON documents that the engine needs.

use vstd::prelude::*;
use base64::engine::general_purpose::URL_SAFE_NO_PAD;
use base64::Engine;
use crate::text::{chars_of, string_of_range};
use crate::shell::opt_view;

verus! {

/// The bytes that a text in URL-safe base64 without padding stands for, if
/// it is such a text.
pub uninterp spec fn base64url_decoded(text: Seq<char>) -> Option<Seq<u8>>;

/// Whether the bytes are a JSON document.
pub uninterp spec fn is_json(doc: Seq<u8>) -> bool;

/// The integer under `key` in the JSON object `doc`, if the document is an
/// object that holds one there.
pub uninterp spec fn json_int_at(doc: Seq<u8>, key: Seq<char>) -> Option<i64>;

/// The string under `key` in the JSON object `doc`, if there is one.
pub uninterp spec fn json_text_at(doc: Seq<u8>, key: Seq<char>) -> Option<Seq<char>>;

/// The string under `inner` in the object under `outer` in the JSON object
/// `doc`, if there is one.
pub uninterp spec fn json_text_in(doc: Seq<u8>, outer: Seq<char>, inner: Seq<char>) -> Option<
    Seq<char>,
>;

/// `Engine::decode` of base64 on `URL_SAFE_NO_PAD`: the bytes that the
/// text stands for, or nothing where the text is not base64 of that kind.
/// The result is a function of the text alone and is named.
#[verifier::external_body]
pub(crate) fn base64url_decode(text: &str) -> (out: Option<Vec<u8>>)
    ensures
        match out {
            Some(bytes) => base64url_decoded(text@) == Some(bytes@),
            None => base64url_decoded(text@) is None,
        },
{
    URL_SAFE_NO_PAD.decode(text).ok()
}

/// `serde_json::from_slice`: whether the bytes parse as a JSON value.
#[verifier::external_body]
pub(crate) fn json_valid(doc: &[u8]) -> (b: bool)
    ensures
        b == is_json(doc@),
{
    serde_json::from_slice::<serde_json::Value>(doc).is_ok()
}

/// `serde_json::from_slice`, then `Value::get` and `Value::as_i64`: the
/// integer under `key`, or nothing where the bytes are no JSON, hold no
/// such key or hold no integer there.
#[verifier::external_body]
pub(crate) fn json_int(doc: &[u8], key: &str) -> (out: Option<i64>)
    ensures
        out == json_int_at(doc@, key@),
{
    serde_json::from_slice::<serde_json::Value>(doc).ok()?.get(key)?.as_i64()
}

/// `serde_json::from_slice`, then `Value::get` and `Value::as_str`: the
/// string under `key`, or nothing where the bytes are no JSON, hold no such
/// key or hold no string there.
#[verifier::external_body]
pub(crate) fn json_text(doc: &[u8], key: &str) -> (out: Option<String>)
    ensures
        opt_view(out) == json_text_at(doc@, key@),
{
    serde_json::from_slice::<serde_json::Value>(doc).ok()?.get(key)?.as_str().map(str::to_string)
}

/// `serde_json::from_slice`, then `Value::get` twice and `Value::as_str`:
/// the string under `inner` in the value under `outer`, or nothing.
#[verifier::external_body]
pub(crate) fn json_text_nested(doc: &[u8], outer: &str, inner: &str) -> (out: Option<String>)
    ensures
        opt_view(out) == json_text_in(doc@, outer@, inner@),
{
    let value = serde_json::from_slice::<serde_json::Value>(doc).ok()?;
    value.get(outer)?.get(inner)?.as_str().map(str::to_string)
}

/// The index of the first dot at or after `from`, or the length of the
/// text.
pub open spec fn next_dot(text: Seq<char>, from: int) -> int
    decreases text.len() - from,
{
    if from >= text.len() {
        text.len() as int
    } else if from < 0 || text[from] == '.' {
        from
    } else {
        next_dot(text, from + 1)
    }
}

/// The payload of a token: the second of its parts, where dots split it
/// into exactly three.
pub open spec fn payload_of(token: Seq<char>) -> Option<Seq<char>> {
    let a = next_dot(token, 0);
    let b = next_dot(token, a + 1);
    let c = next_dot(token, b + 1);
    if a < token.len() && b < token.len() && c >= token.len() {
        Some(token.subrange(a + 1, b))
    } else {
        None
    }
}

/// The claims of a token that the engine reads.
pub struct Claims {
    /// The time of expiry, in seconds since the epoch.
    pub exp: Option<i64>,
    /// The account that the token was issued for.
    pub account_id: Option<String>,
}

/// The key of the claim that holds the account.
pub const AUTH_CLAIM: &'static str = "https://api.openai.com/auth";

/// The key of the account within that claim.
pub const ACCOUNT_KEY: &'static str = "chatgpt_account_id";

/// The JSON document of a token's claims: its payload decoded from base64,
/// where the token has three parts and the payload decodes to JSON.
pub open spec fn claims_doc(token: Seq<char>) -> Option<Seq<u8>> {
    match payload_of(token) {
        Some(payload) => match base64url_decoded(payload) {
            Some(doc) => if is_json(doc) {
                Some(doc)
            } else {
                None
            },
            None => None,
        },
        None => None,
    }
}

/// The expiry that a token claims, if its claims can be read and hold
/// one.
pub open spec fn claimed_expiry(token: Seq<char>) -> Option<i64> {
    match claims_doc(token) {
        Some(doc) => json_int_at(doc, "exp"@),
        None => None,
    }
}

/// The account that a token claims, if its claims can be read and hold
/// one.
pub open spec fn claimed_account(token: Seq<char>) -> Option<Seq<char>> {
    match claims_doc(token) {
        Some(doc) => json_text_in(doc, AUTH_CLAIM@, ACCOUNT_KEY@),
        None => None,
    }
}

/// The index of the first dot at or after `from`.
pub fn next_dot_of(text: &Vec<char>, from: usize) -> (k: usize)
    requires
        from <= text.len(),
    ensures
        k as int == next_dot(text@, from as int),
        from <= k <= text.len(),
{
    let mut k: usize = from;
    while k < text.len() && text[k] != '.'
        invariant
            from <= k <= text.len(),
            next_dot(text@, k as int) == next_dot(text@, from as int),
        decreases text.len() - k,
    {
        k += 1;
    }
    k
}

/// The payload of a token.
pub fn jwt_payload(token: &str) -> (out: Option<String>)
    ensures
        opt_view(out) == payload_of(token@),
{
    let chars = chars_of(token);
    let n = chars.len();
    let a = next_dot_of(&chars, 0);
    if a >= n {
        return None;
    }
    let b = next_dot_of(&chars, a + 1);
    if b >= n {
        return None;
    }
    let c = next_dot_of(&chars, b + 1);
    if c < n {
        return None;
    }
    Some(string_of_range(&chars, a + 1, b))
}

/// Reads the claims of a token, without checking its signature. A token
/// that has not three parts, or whose payload is no base64 of JSON, has
/// none.
pub fn parse_jwt_claims(token: &str) -> (out: Option<Claims>)
    ensures
        out is Some <==> claims_doc(token@) is Some,
        out matches Some(c) ==> c.exp == claimed_expiry(token@) && opt_view(c.account_id)
            == claimed_account(token@),
{
    let payload = match jwt_payload(token) {
        Some(p) => p,
        None => {
            return None;
        },
    };
    let doc = match base64url_decode(payload.as_str()) {
        Some(d) => d,
        None => {
            return None;
        },
    };
    if !json_valid(doc.as_slice()) {
        return None;
    }
    let exp = json_int(doc.as_slice(), "exp");
    let account_id = json_text_nested(doc.as_slice(), AUTH_CLAIM, ACCOUNT_KEY);
    Some(Claims { exp, account_id })
}

} // verus!
