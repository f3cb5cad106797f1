//! The plain data of a signed-in account and of the user's settings.

use vstd::prelude::*;
use vstd::string::StringExecFns;
use crate::jwt::{
    claimed_expiry, claimed_account, is_json, json_text_at, parse_jwt_claims, json_valid,
    json_text,
};

verus! {

/// The tokens of a signed-in account.
#[derive(Debug, Clone)]
pub struct Tokens {
    pub id_token: String,
    pub access_token: String,
    pub refresh_token: String,
    pub account_id: String,
}

/// The tokens with the time of their last refresh.
#[derive(Debug, Clone)]
pub struct AuthData {
    pub tokens: Tokens,
    pub last_refresh: String,
}

/// The number of seconds before its expiry from which a token counts as
/// due for a refresh.
pub const REFRESH_MARGIN_SECS: i64 = 300;

/// Whether a token that expires at `exp`, if that is known, is due for a
/// refresh at `now`, both in seconds since the epoch.
pub open spec fn refresh_due(exp: Option<i64>, now: i64) -> bool {
    match exp {
        Some(e) => e <= now + REFRESH_MARGIN_SECS,
        None => true,
    }
}

impl AuthData {
    /// Whether the access token is due for a refresh at `now`, in seconds
    /// since the epoch: it expires within five minutes, or its expiry
    /// cannot be read from it.
    pub fn needs_refresh(&self, now: i64) -> (due: bool)
        ensures
            due == refresh_due(claimed_expiry(self.tokens.access_token@), now),
    {
        match parse_jwt_claims(self.tokens.access_token.as_str()) {
            Some(claims) => match claims.exp {
                Some(e) => now > i64::MAX - REFRESH_MARGIN_SECS || e <= now + REFRESH_MARGIN_SECS,
                None => true,
            },
            None => true,
        }
    }
}

/// Why a token response gives no tokens.
#[derive(Clone, Copy, Debug, PartialEq, Eq, Structural)]
pub enum TokenError {
    NotJson,
    MissingIdToken,
    MissingAccessToken,
    MissingRefreshToken,
}

impl TokenError {
    /// The error in words.
    pub fn message(&self) -> (s: &'static str)
        ensures
            s@ == match *self {
                TokenError::NotJson => "Invalid token response"@,
                TokenError::MissingIdToken => "Missing id_token"@,
                TokenError::MissingAccessToken => "Missing access_token"@,
                TokenError::MissingRefreshToken => "Missing refresh_token"@,
            },
    {
        match self {
            TokenError::NotJson => "Invalid token response",
            TokenError::MissingIdToken => "Missing id_token",
            TokenError::MissingAccessToken => "Missing access_token",
            TokenError::MissingRefreshToken => "Missing refresh_token",
        }
    }
}

/// The refresh token that a response gives: its own, or the one in use
/// where it names none.
pub open spec fn refresh_of(doc: Seq<u8>, previous: Option<Seq<char>>) -> Option<Seq<char>> {
    if json_text_at(doc, "refresh_token"@) is Some {
        json_text_at(doc, "refresh_token"@)
    } else {
        previous
    }
}

/// What a token response gives: the first of its faults, if it has one.
pub open spec fn response_fault(doc: Seq<u8>, previous: Option<Seq<char>>) -> Option<TokenError> {
    if !is_json(doc) {
        Some(TokenError::NotJson)
    } else if json_text_at(doc, "id_token"@) is None {
        Some(TokenError::MissingIdToken)
    } else if json_text_at(doc, "access_token"@) is None {
        Some(TokenError::MissingAccessToken)
    } else if refresh_of(doc, previous) is None {
        Some(TokenError::MissingRefreshToken)
    } else {
        None
    }
}

/// The account of an identity token, or nothing where it names none.
pub open spec fn account_of(id_token: Seq<char>) -> Seq<char> {
    match claimed_account(id_token) {
        Some(a) => a,
        None => Seq::empty(),
    }
}

/// Reads the tokens from the body of a token response. `previous` is the
/// refresh token in use, kept where the response names no new one; without
/// it a response must name one. The account is read from the identity
/// token's claims.
pub fn tokens_from_response(body: &[u8], previous: Option<&str>) -> (out: Result<Tokens, TokenError>)
    ensures
        match out {
            Ok(t) => {
                &&& response_fault(body@, opt_str_view(previous)) is None
                &&& Some(t.id_token@) == json_text_at(body@, "id_token"@)
                &&& Some(t.access_token@) == json_text_at(body@, "access_token"@)
                &&& Some(t.refresh_token@) == refresh_of(body@, opt_str_view(previous))
                &&& t.account_id@ == account_of(t.id_token@)
            },
            Err(e) => response_fault(body@, opt_str_view(previous)) == Some(e),
        },
{
    if !json_valid(body) {
        return Err(TokenError::NotJson);
    }
    let id_token = match json_text(body, "id_token") {
        Some(t) => t,
        None => {
            return Err(TokenError::MissingIdToken);
        },
    };
    let access_token = match json_text(body, "access_token") {
        Some(t) => t,
        None => {
            return Err(TokenError::MissingAccessToken);
        },
    };
    let refresh_token = match json_text(body, "refresh_token") {
        Some(t) => t,
        None => match previous {
            Some(p) => String::from_str(p),
            None => {
                return Err(TokenError::MissingRefreshToken);
            },
        },
    };
    let account_id = match parse_jwt_claims(id_token.as_str()) {
        Some(claims) => match claims.account_id {
            Some(a) => a,
            None => String::new(),
        },
        None => String::new(),
    };
    Ok(Tokens { id_token, access_token, refresh_token, account_id })
}

/// The view of an optional string slice.
pub open spec fn opt_str_view(s: Option<&str>) -> Option<Seq<char>> {
    match s {
        Some(t) => Some(t@),
        None => None,
    }
}

/// The user's settings.
#[derive(Debug, Clone)]
pub struct Config {
    pub default_model: String,
}

impl Default for Config {
    fn default() -> (c: Config)
        ensures
            c.default_model@ == "gpt-5-codex"@,
    {
        Config { default_model: String::from_str("gpt-5-codex") }
    }
}

/// A PKCE verifier and the challenge derived from it.
#[derive(Debug, Clone)]
pub struct PkceCodes {
    pub code_verifier: String,
    pub code_challenge: String,
}

} // verus!
