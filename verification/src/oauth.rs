//! The sign-in flow's pure parts: the PKCE codes and the authorization URL.

use vstd::prelude::*;
use vstd::string::StringExecFns;
use vstd::utf8::encode_utf8;
use base64::engine::general_purpose::URL_SAFE_NO_PAD;
use base64::Engine;
use rand::distr::{Alphanumeric, SampleString};
use sha2::{Digest, Sha256};
use crate::account::PkceCodes;
use crate::text::{decimal, digit, push_decimal, chars_of, string_of};

verus! {

/// The identifier of this client at the authorization server.
pub const CLIENT_ID: &'static str = "app_EMoamEEZ73f0CkXaXp7hrann";

/// The authorization server.
pub const OAUTH_ISSUER: &'static str = "https://auth.openai.com";

/// Where codes and refresh tokens are exchanged for tokens.
pub const OAUTH_TOKEN_URL: &'static str = "https://auth.openai.com/oauth/token";

/// Where requests are answered.
pub const CHATGPT_RESPONSES_URL: &'static str = "https://chatgpt.com/backend-api/codex/responses";

/// The local port of the callback, the only one registered for this client.
pub const OAUTH_PORT: u16 = 1455;

/// The length of a PKCE verifier.
pub const VERIFIER_LEN: usize = 128;

/// The length of the state token.
pub const STATE_LEN: usize = 64;

/// Whether a byte is written as it is in a URL: letters, digits and the
/// four marks `-`, `.`, `_`, `~`.
pub open spec fn unreserved(b: u8) -> bool {
    (0x30 <= b <= 0x39) || (0x41 <= b <= 0x5a) || (0x61 <= b <= 0x7a) || b == 0x2d || b == 0x2e
        || b == 0x5f || b == 0x7e
}

/// The hexadecimal digit `n < 16`, in upper case.
pub open spec fn hex_digit(n: int) -> char {
    if n < 10 {
        digit(n)
    } else if n == 10 {
        'A'
    } else if n == 11 {
        'B'
    } else if n == 12 {
        'C'
    } else if n == 13 {
        'D'
    } else if n == 14 {
        'E'
    } else {
        'F'
    }
}

/// One byte, percent-encoded.
pub open spec fn encoded_byte(b: u8) -> Seq<char> {
    if unreserved(b) {
        seq![b as char]
    } else {
        seq!['%', hex_digit(b as int / 16), hex_digit(b as int % 16)]
    }
}

/// The bytes, each percent-encoded unless it is unreserved.
pub open spec fn percent_encoded(bytes: Seq<u8>) -> Seq<char>
    decreases bytes.len(),
{
    if bytes.len() == 0 {
        Seq::empty()
    } else {
        percent_encoded(bytes.drop_last()) + encoded_byte(bytes.last())
    }
}

/// The SHA-256 digest of the bytes.
pub uninterp spec fn sha256_of(data: Seq<u8>) -> Seq<u8>;

/// The bytes in base64 with the URL-safe alphabet and no padding.
pub uninterp spec fn base64url_of(data: Seq<u8>) -> Seq<char>;

/// Whether the character is an ASCII letter or digit.
pub open spec fn alphanumeric(c: char) -> bool {
    ('0' <= c <= '9') || ('A' <= c <= 'Z') || ('a' <= c <= 'z')
}

/// `urlencoding::encode`: the UTF-8 bytes of the text, each percent-encoded
/// with upper-case hexadecimal digits unless it is a letter, a digit or one
/// of `-`, `.`, `_`, `~`.
#[verifier::external_body]
fn url_encode(text: &str) -> (out: String)
    ensures
        out@ == percent_encoded(encode_utf8(text@)),
{
    urlencoding::encode(text).into_owned()
}

/// `SampleString::sample_string` of rand for `Alphanumeric`, on the
/// thread's generator: `len` characters, each an ASCII letter or digit.
/// Which ones is chance, and no contract says.
#[verifier::external_body]
fn random_alphanumeric(len: usize) -> (out: String)
    ensures
        out@.len() == len,
        forall|i: int| 0 <= i < out@.len() ==> alphanumeric(#[trigger] out@[i]),
{
    Alphanumeric.sample_string(&mut rand::rng(), len)
}

/// `Sha256::digest` of sha2: the digest of the data, 32 bytes long. The
/// digest is a function of the data alone and is named, not spelled out.
#[verifier::external_body]
fn sha256(data: &[u8]) -> (out: Vec<u8>)
    ensures
        out@ == sha256_of(data@),
        out@.len() == 32,
{
    Sha256::digest(data).to_vec()
}

/// `Engine::encode` of base64 on `URL_SAFE_NO_PAD`: the data in base64
/// with the URL-safe alphabet and no padding, a function of the data alone.
/// The data is kept short of the length at which the encoder gives up.
#[verifier::external_body]
fn base64url(data: &[u8]) -> (out: String)
    requires
        data@.len() <= 0x1000_0000,
    ensures
        out@ == base64url_of(data@),
{
    URL_SAFE_NO_PAD.encode(data)
}

/// The challenge that belongs to a verifier: the base64 of the SHA-256
/// digest of its bytes.
pub open spec fn challenge_of(verifier: Seq<char>) -> Seq<char> {
    base64url_of(sha256_of(encode_utf8(verifier)))
}

impl PkceCodes {
    /// The codes for a given verifier.
    pub fn from_verifier(code_verifier: String) -> (codes: PkceCodes)
        ensures
            codes.code_verifier == code_verifier,
            codes.code_challenge@ == challenge_of(code_verifier@),
    {
        let digest = sha256(code_verifier.as_str().as_bytes());
        let code_challenge = base64url(digest.as_slice());
        PkceCodes { code_verifier, code_challenge }
    }

    /// Fresh codes: a random verifier of 128 letters and digits, and the
    /// challenge that belongs to it.
    pub fn generate() -> (codes: PkceCodes)
        ensures
            codes.code_verifier@.len() == VERIFIER_LEN,
            forall|i: int|
                0 <= i < codes.code_verifier@.len() ==> alphanumeric(
                    #[trigger] codes.code_verifier@[i],
                ),
            codes.code_challenge@ == challenge_of(codes.code_verifier@),
    {
        PkceCodes::from_verifier(random_alphanumeric(VERIFIER_LEN))
    }
}

/// A fresh state token: 64 random letters and digits.
pub fn state_token() -> (out: String)
    ensures
        out@.len() == STATE_LEN,
        forall|i: int| 0 <= i < out@.len() ==> alphanumeric(#[trigger] out@[i]),
{
    random_alphanumeric(STATE_LEN)
}

/// The address that the authorization server sends the browser back to.
pub open spec fn redirect_address() -> Seq<char> {
    "http://localhost:"@ + decimal(OAUTH_PORT as nat) + "/auth/callback"@
}

/// The address of the page that ends a successful sign-in.
pub open spec fn success_address() -> Seq<char> {
    "http://localhost:"@ + decimal(OAUTH_PORT as nat) + "/success"@
}

/// A value as it stands in a query.
pub open spec fn escaped(value: Seq<char>) -> Seq<char> {
    percent_encoded(encode_utf8(value))
}

/// The authorization URL for a challenge and a state token: the issuer's
/// authorize endpoint with the nine parameters of the flow, each value
/// percent-encoded.
pub open spec fn auth_url(challenge: Seq<char>, state: Seq<char>) -> Seq<char> {
    OAUTH_ISSUER@ + "/oauth/authorize?"@ + "response_type="@ + escaped("code"@) + "&client_id="@
        + escaped(CLIENT_ID@) + "&redirect_uri="@ + escaped(redirect_address()) + "&scope="@
        + escaped("openid profile email offline_access"@) + "&code_challenge="@ + escaped(
        challenge,
    ) + "&code_challenge_method="@ + escaped("S256"@) + "&id_token_add_organizations="@ + escaped(
        "true"@,
    ) + "&codex_cli_simplified_flow="@ + escaped("true"@) + "&state="@ + escaped(state)
}

/// The address that the authorization server sends the browser back to.
pub fn redirect_uri() -> (out: String)
    ensures
        out@ == redirect_address(),
{
    let mut out = chars_of("http://localhost:");
    push_decimal(&mut out, OAUTH_PORT as u64);
    let tail = chars_of("/auth/callback");
    crate::text::append_chars(&mut out, &tail);
    string_of(&out)
}

/// The address of the page that ends a successful sign-in.
pub fn success_uri() -> (out: String)
    ensures
        out@ == success_address(),
{
    let mut out = chars_of("http://localhost:");
    push_decimal(&mut out, OAUTH_PORT as u64);
    let tail = chars_of("/success");
    crate::text::append_chars(&mut out, &tail);
    string_of(&out)
}

/// The URL that opens the sign-in for the given codes and state token.
pub fn build_auth_url(pkce: &PkceCodes, state: &str) -> (out: String)
    ensures
        out@ == auth_url(pkce.code_challenge@, state@),
{
    let redirect = redirect_uri();
    let out = String::from_str(OAUTH_ISSUER).concat("/oauth/authorize?").concat(
        "response_type=",
    ).concat(url_encode("code").as_str()).concat("&client_id=").concat(
        url_encode(CLIENT_ID).as_str(),
    ).concat("&redirect_uri=").concat(url_encode(redirect.as_str()).as_str()).concat(
        "&scope=",
    ).concat(url_encode("openid profile email offline_access").as_str()).concat(
        "&code_challenge=",
    ).concat(url_encode(pkce.code_challenge.as_str()).as_str()).concat(
        "&code_challenge_method=",
    ).concat(url_encode("S256").as_str()).concat("&id_token_add_organizations=").concat(
        url_encode("true").as_str(),
    ).concat("&codex_cli_simplified_flow=").concat(url_encode("true").as_str()).concat(
        "&state=",
    ).concat(url_encode(state).as_str());
    out
}

/// The body of the request that exchanges an authorization code for
/// tokens.
pub open spec fn exchange_form(code: Seq<char>, verifier: Seq<char>) -> Seq<char> {
    "grant_type=authorization_code&code="@ + escaped(code) + "&redirect_uri="@ + escaped(
        redirect_address(),
    ) + "&client_id="@ + escaped(CLIENT_ID@) + "&code_verifier="@ + escaped(verifier)
}

/// The body of the request that exchanges `code` for tokens.
pub fn exchange_body(code: &str, pkce: &PkceCodes) -> (out: String)
    ensures
        out@ == exchange_form(code@, pkce.code_verifier@),
{
    let redirect = redirect_uri();
    String::from_str("grant_type=authorization_code&code=").concat(
        url_encode(code).as_str(),
    ).concat("&redirect_uri=").concat(url_encode(redirect.as_str()).as_str()).concat(
        "&client_id=",
    ).concat(url_encode(CLIENT_ID).as_str()).concat("&code_verifier=").concat(
        url_encode(pkce.code_verifier.as_str()).as_str(),
    )
}

} // verus!
