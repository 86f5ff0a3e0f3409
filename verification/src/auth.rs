//! Jira Cloud credentials: expiry of OAuth2 tokens and the `Authorization`
//! header of each request.
use vstd::prelude::*;
use vstd::utf8::{encode_utf8, is_ascii_chars, is_ascii_chars_encode_utf8};

use reqwest::header::{HeaderMap, HeaderValue, InvalidHeaderValue};

use base64::Engine;

use crate::encoding::{base64_char, base64_encode, lemma_base64_standard_chars};
use crate::error::JiraError;
use crate::text::push_str;

verus! {

broadcast use vstd::string::group_string_axioms;

/// Authentication method for Jira Cloud.
#[derive(Debug, Clone, PartialEq, Eq)]
pub enum JiraAuth {
    /// OAuth 2.0 (3LO) access token.
    OAuth2 { access_token: String, refresh_token: String, expires_at: Option<i64> },
    /// Personal API token + email.
    ApiToken { email: String, token: String },
}

// ---------------------------------------------------------------------------
// Outside items
// ---------------------------------------------------------------------------

#[verifier::external_type_specification]
#[verifier::external_body]
pub struct ExHeaderValue(HeaderValue);

#[verifier::external_type_specification]
#[verifier::external_body]
pub struct ExInvalidHeaderValue(InvalidHeaderValue);

#[verifier::external_type_specification]
#[verifier::external_body]
#[verifier::reject_recursive_types(T)]
pub struct ExHeaderMap<T>(HeaderMap<T>);

/// The bytes that a header value holds.
pub uninterp spec fn header_value_bytes(v: HeaderValue) -> Seq<u8>;

/// The values a header map holds under each (lower-case) header name.
pub uninterp spec fn header_map_values(m: HeaderMap) -> Map<Seq<char>, Seq<Seq<u8>>>;


/// A byte that a header value may hold: visible or extended, or a tab.
pub open spec fn header_byte_ok(b: u8) -> bool {
    (b >= 32 && b != 127) || b == 9
}

/// Whether `HeaderValue::from_str` accepts text with these UTF-8 bytes.
pub open spec fn header_bytes_ok(bytes: Seq<u8>) -> bool {
    forall|i: int| 0 <= i < bytes.len() ==> header_byte_ok(#[trigger] bytes[i])
}


/// `base64::engine::general_purpose::STANDARD.encode`: standard Base64 with
/// `=` padding.
#[verifier::external_body]
fn base64_encode_standard(bytes: &[u8]) -> (r: String)
    ensures
        r@ == base64_encode(bytes@, false, true),
{
    base64::engine::general_purpose::STANDARD.encode(bytes)
}

/// `HeaderValue::from_str`: accepts exactly the text whose bytes are all
/// visible, extended or tab bytes, and then holds those bytes.
#[verifier::external_body]
fn header_value_from_str(s: &str) -> (r: Result<HeaderValue, InvalidHeaderValue>)
    ensures
        r is Ok <==> header_bytes_ok(encode_utf8(s@)),
        r matches Ok(v) ==> header_value_bytes(v) == encode_utf8(s@),
{
    HeaderValue::from_str(s)
}

/// The `Display` text of `InvalidHeaderValue`.
#[verifier::external_body]
fn invalid_header_value_text(e: &InvalidHeaderValue) -> (r: String)
    ensures
        r@ == "failed to parse header value"@,
{
    format!("{}", e)
}

/// `HeaderMap::new`: an empty map.
#[verifier::external_body]
fn new_header_map() -> (r: HeaderMap)
    ensures
        header_map_values(r).dom() =~= Set::<Seq<char>>::empty(),
{
    HeaderMap::new()
}

/// `HeaderMap::insert` with `AUTHORIZATION` into an empty map: the name then
/// holds exactly the new value.
#[verifier::external_body]
fn insert_authorization(m: &mut HeaderMap, v: HeaderValue)
    requires
        header_map_values(*old(m)).dom() =~= Set::<Seq<char>>::empty(),
    ensures
        header_map_values(*final(m)) == header_map_values(*old(m)).insert(
            "authorization"@,
            seq![header_value_bytes(v)],
        ),
{
    m.insert(reqwest::header::AUTHORIZATION, v);
}

/// The largest distance from the Unix epoch, in seconds, of a time that
/// `chrono` can hold (its years run from -262142 to 262142).
pub open spec fn clock_bound() -> int {
    10_000_000_000_000
}

/// `chrono::Utc::now().timestamp()`: the current Unix time in seconds, which
/// lies within the range of times that `chrono` holds. `chrono` panics when
/// the system clock reads a time before 1970; no input of the library causes
/// that, and it is not stated here.
#[verifier::external_body]
pub(crate) fn unix_now() -> (r: i64)
    ensures
        -clock_bound() <= r <= clock_bound(),
{
    chrono::Utc::now().timestamp()
}

// ---------------------------------------------------------------------------
// Specification
// ---------------------------------------------------------------------------

/// The text of the `Authorization` header for some credentials.
pub open spec fn authorization_text(auth: JiraAuth) -> Seq<char> {
    match auth {
        JiraAuth::OAuth2 { access_token, .. } => "Bearer "@ + access_token@,
        JiraAuth::ApiToken { email, token } => "Basic "@ + base64_encode(
            encode_utf8(email@ + ":"@ + token@),
            false,
            true,
        ),
    }
}

/// The message of the error for credentials whose header text is refused.
pub open spec fn header_error_message(auth: JiraAuth) -> Seq<char> {
    let prefix = match auth {
        JiraAuth::OAuth2 { .. } => "invalid access token header: "@,
        JiraAuth::ApiToken { .. } => "invalid API token header: "@,
    };
    prefix + "failed to parse header value"@
}

/// Whether an OAuth2 token counts as expired at `now`: it expires within 60s.
pub open spec fn expired_at(auth: JiraAuth, now: i64) -> bool {
    match auth {
        JiraAuth::OAuth2 { expires_at: Some(exp), .. } => now >= exp - 60,
        _ => false,
    }
}

impl JiraAuth {
    /// Returns true if this is an OAuth2 token that has expired (or will expire
    /// within 60s) at the given Unix time.
    pub fn is_expired_at(&self, now: i64) -> (r: bool)
        ensures
            r == expired_at(*self, now),
    {
        match self {
            JiraAuth::OAuth2 { expires_at: Some(exp), .. } => (now as i128) + 60 >= (*exp as i128),
            JiraAuth::OAuth2 { expires_at: None, .. } => false,
            JiraAuth::ApiToken { .. } => false,
        }
    }

    /// Returns true if this is an OAuth2 token that has expired (or will expire
    /// within 60s). The answer is `expired_at` for the clock's current time;
    /// tokens without an expiry and API tokens never count as expired.
    pub fn is_expired(&self) -> (r: bool)
        ensures
            exists|now: i64| -clock_bound() <= now <= clock_bound() && r == expired_at(*self, now),
            !(self matches JiraAuth::OAuth2 { expires_at: Some(_), .. }) ==> !r,
    {
        let now = unix_now();
        self.is_expired_at(now)
    }

    /// The text of the `Authorization` header for these credentials.
    pub fn authorization_value(&self) -> (r: String)
        ensures
            r@ == authorization_text(*self),
    {
        match self {
            JiraAuth::OAuth2 { access_token, .. } => {
                let mut v = String::new();
                push_str(&mut v, "Bearer ");
                push_str(&mut v, access_token.as_str());
                assert(v@ =~= "Bearer "@ + access_token@);
                v
            },
            JiraAuth::ApiToken { email, token } => {
                let mut pair = String::new();
                push_str(&mut pair, email.as_str());
                push_str(&mut pair, ":");
                push_str(&mut pair, token.as_str());
                assert(pair@ =~= email@ + ":"@ + token@);
                let encoded = base64_encode_standard(pair.as_str().as_bytes());
                let mut v = String::new();
                push_str(&mut v, "Basic ");
                push_str(&mut v, encoded.as_str());
                assert(v@ =~= "Basic "@ + encoded@);
                v
            },
        }
    }

    /// Build HTTP auth headers for a Jira Cloud REST API request.
    pub fn auth_headers(&self) -> (r: Result<HeaderMap, JiraError>)
        ensures
            r is Ok <==> header_bytes_ok(encode_utf8(authorization_text(*self))),
            r matches Ok(m) ==> header_map_values(m) == map![
                "authorization"@ => seq![encode_utf8(authorization_text(*self))],
            ],
            r matches Err(e) ==> e matches JiraError::AuthFailed(msg) && msg@
                == header_error_message(*self),
            *self is ApiToken ==> r is Ok,
    {
        let value = self.authorization_value();
        proof {
            if *self is ApiToken {
                lemma_api_token_header_ok(*self);
            }
        }
        match header_value_from_str(value.as_str()) {
            Ok(v) => {
                let mut headers = new_header_map();
                insert_authorization(&mut headers, v);
                assert(header_map_values(headers) =~= map![
                    "authorization"@ => seq![encode_utf8(authorization_text(*self))],
                ]);
                Ok(headers)
            },
            Err(e) => {
                let mut msg = String::new();
                match self {
                    JiraAuth::OAuth2 { .. } => push_str(&mut msg, "invalid access token header: "),
                    JiraAuth::ApiToken { .. } => push_str(&mut msg, "invalid API token header: "),
                }
                let detail = invalid_header_value_text(&e);
                push_str(&mut msg, detail.as_str());
                assert(msg@ =~= header_error_message(*self));
                Err(JiraError::AuthFailed(msg))
            },
        }
    }
}

/// The header text of API-token credentials is ASCII made of `"Basic "` and
/// Base64 characters, so `HeaderValue::from_str` accepts it.
proof fn lemma_api_token_header_ok(auth: JiraAuth)
    requires
        auth is ApiToken,
    ensures
        header_bytes_ok(encode_utf8(authorization_text(auth))),
{
    reveal_strlit("Basic ");
    let enc = base64_encode(encode_utf8(auth->email@ + ":"@ + auth->token@), false, true);
    lemma_base64_standard_chars(encode_utf8(auth->email@ + ":"@ + auth->token@));
    let t = authorization_text(auth);
    assert(t == "Basic "@ + enc);
    assert forall|i: int| 0 <= i < t.len() implies ' ' <= #[trigger] t[i] && t[i] <= '~' by {
        if i >= 6 {
            assert(t[i] == enc[i - 6]);
            assert(base64_char(enc[i - 6]));
        }
    }
    assert(is_ascii_chars(t));
    is_ascii_chars_encode_utf8(t);
    let bytes = encode_utf8(t);
    assert forall|i: int| 0 <= i < bytes.len() implies header_byte_ok(#[trigger] bytes[i]) by {
        assert(t[i] as u8 == bytes[i]);
        assert(' ' <= t[i] && t[i] <= '~');
    }
}

} // verus!
