//! OAuth 2.0 (3LO) with Atlassian: the token request bodies, the handling of
//! the token endpoint's answers, the refresh decision, and the authorize URL.
use vstd::prelude::*;
use vstd::utf8::encode_utf8;

use base64::Engine;
use hmac::Mac;

use crate::auth::{clock_bound, expired_at, unix_now, JiraAuth};
use crate::encoding::base64_encode;
use crate::error::{is_success, JiraError};
use crate::json::Json;
use crate::jql::{percent_encode, url_encode};
use crate::text::{decimal, decimal_string, owned, push_str};
use crate::types::AtlassianSite;

verus! {

broadcast use vstd::string::group_string_axioms;

/// A token answer of the Atlassian token endpoint.
#[derive(Debug, Clone)]
pub struct OAuthTokenResponse {
    pub access_token: String,
    pub refresh_token: Option<String>,
    pub expires_in: Option<i64>,
    pub token_type: Option<String>,
    pub scope: Option<String>,
}

/// What to do with credentials whose OAuth2 token may need a refresh.
#[derive(Debug)]
pub enum RefreshPlan {
    /// The credentials are usable as they are.
    UseStored(JiraAuth),
    /// Ask the token endpoint for new tokens with this refresh token.
    Refresh(String),
}

// ---------------------------------------------------------------------------
// Outside items
// ---------------------------------------------------------------------------

/// What HMAC-SHA256 returns for a key and a message.
pub uninterp spec fn hmac_sha256_tag(key: Seq<u8>, message: Seq<u8>) -> Seq<u8>;


/// `Hmac::<Sha256>::new_from_slice`, `update` and `finalize`: the tag is named
/// and is 32 bytes long. `new_from_slice` accepts keys of every length.
#[verifier::external_body]
fn hmac_sha256(key: &[u8], message: &[u8]) -> (r: Vec<u8>)
    ensures
        r@ == hmac_sha256_tag(key@, message@),
        r@.len() == 32,
{
    let mut mac = hmac::Hmac::<sha2::Sha256>::new_from_slice(key).expect(
        "HMAC accepts any key length",
    );
    mac.update(message);
    mac.finalize().into_bytes().to_vec()
}

/// `base64::engine::general_purpose::URL_SAFE_NO_PAD.encode`: URL-safe
/// Base64 without padding.
#[verifier::external_body]
fn base64_url_encode(bytes: &[u8]) -> (r: String)
    ensures
        r@ == base64_encode(bytes@, true, false),
{
    base64::engine::general_purpose::URL_SAFE_NO_PAD.encode(bytes)
}

// ---------------------------------------------------------------------------
// Specification
// ---------------------------------------------------------------------------

/// The Atlassian OAuth2 token endpoint.
pub const ATLASSIAN_TOKEN_URL: &'static str = "https://auth.atlassian.com/oauth/token";

/// The endpoint listing the Atlassian sites that a token reaches.
pub const ATLASSIAN_ACCESSIBLE_RESOURCES_URL: &'static str =
    "https://api.atlassian.com/oauth/token/accessible-resources";

/// The scopes that the authorize URL asks for.
pub open spec fn oauth_scopes() -> Seq<char> {
    "read:jira-work write:jira-work read:jira-user offline_access"@
}

/// A JSON object whose entries are exactly these keys with these texts, in
/// this order.
pub open spec fn is_text_object(j: Json, fields: Seq<(Seq<char>, Seq<char>)>) -> bool {
    &&& j matches Json::Object(e)
    &&& e@.len() == fields.len()
    &&& forall|k: int|
        0 <= k < fields.len() ==> {
            &&& (#[trigger] e@[k]).0@ == fields[k].0
            &&& e@[k].1 matches Json::Text(t)
            &&& t@ == fields[k].1
        }
}

/// The fields of the body that exchanges an authorization code, keys sorted.
pub open spec fn exchange_fields(
    client_id: Seq<char>,
    client_secret: Seq<char>,
    code: Seq<char>,
    redirect_uri: Seq<char>,
) -> Seq<(Seq<char>, Seq<char>)> {
    seq![
        ("client_id"@, client_id),
        ("client_secret"@, client_secret),
        ("code"@, code),
        ("grant_type"@, "authorization_code"@),
        ("redirect_uri"@, redirect_uri),
    ]
}

/// The fields of the body that refreshes a token, keys sorted.
pub open spec fn refresh_fields(
    client_id: Seq<char>,
    client_secret: Seq<char>,
    refresh_token: Seq<char>,
) -> Seq<(Seq<char>, Seq<char>)> {
    seq![
        ("client_id"@, client_id),
        ("client_secret"@, client_secret),
        ("grant_type"@, "refresh_token"@),
        ("refresh_token"@, refresh_token),
    ]
}

/// The expiry time of a token that lasts `expires_in` seconds from `now`.
pub open spec fn expiry_from(expires_in: Option<i64>, now: i64) -> Option<i64> {
    match expires_in {
        Some(secs) => Some((now + secs) as i64),
        None => None,
    }
}

/// `now + expires_in` is an `i64`.
pub open spec fn expiry_fits(expires_in: Option<i64>, now: i64) -> bool {
    match expires_in {
        Some(secs) => i64::MIN <= now + secs <= i64::MAX,
        None => true,
    }
}

/// `expires_in` is small enough to be added to any time that the clock gives.
pub open spec fn expires_in_bounded(expires_in: Option<i64>) -> bool {
    match expires_in {
        Some(secs) => -(i64::MAX - clock_bound()) <= secs <= i64::MAX - clock_bound(),
        None => true,
    }
}

/// `a` holds the OAuth2 credentials of a token answer at `now`; the refresh
/// token is `fallback` when the answer carries none.
pub open spec fn credentials_from(
    a: JiraAuth,
    token: OAuthTokenResponse,
    fallback: Seq<char>,
    now: i64,
) -> bool {
    &&& a matches JiraAuth::OAuth2 { access_token, refresh_token, expires_at }
    &&& access_token@ == token.access_token@
    &&& refresh_token@ == (match token.refresh_token {
        Some(t) => t@,
        None => fallback,
    })
    &&& expires_at == expiry_from(token.expires_in, now)
}

/// The outcome of a code exchange whose answer had `status`, `body`, and
/// (parsed as a token answer) `parsed`.
pub open spec fn exchange_outcome_ok(
    status: u16,
    body: Seq<char>,
    parsed: Result<OAuthTokenResponse, String>,
    now: i64,
    r: Result<JiraAuth, JiraError>,
) -> bool {
    if !is_success(status) {
        r matches Err(JiraError::ApiError { status: s, message: m }) && s == status && m@
            == "OAuth token exchange failed: "@ + body
    } else {
        match parsed {
            Err(e) => r matches Err(JiraError::Parse(m)) && m@
                == "failed to parse OAuth token response: "@ + e@,
            Ok(t) => r matches Ok(a) && credentials_from(a, t, Seq::empty(), now),
        }
    }
}

/// The outcome of a token refresh whose answer had `status`, `body`, and
/// (parsed as a token answer) `parsed`.
pub open spec fn refresh_outcome_ok(
    status: u16,
    body: Seq<char>,
    parsed: Result<OAuthTokenResponse, String>,
    refresh_token: Seq<char>,
    now: i64,
    r: Result<JiraAuth, JiraError>,
) -> bool {
    if !is_success(status) {
        r matches Err(JiraError::AuthFailed(m)) && m@ == "OAuth token refresh failed ("@ + decimal(
            status as nat,
        ) + "): "@ + body
    } else {
        match parsed {
            Err(e) => r matches Err(JiraError::Parse(m)) && m@
                == "failed to parse OAuth refresh response: "@ + e@,
            Ok(t) => r matches Ok(a) && credentials_from(a, t, refresh_token, now),
        }
    }
}

/// The credentials a refresh decision starts from: those read again under the
/// lock, or those in hand when that read failed.
pub open spec fn fresh_credentials(in_hand: JiraAuth, reread: Option<JiraAuth>) -> JiraAuth {
    match reread {
        Some(a) => a,
        None => in_hand,
    }
}

/// The refresh decision at `now`.
pub open spec fn refresh_plan_ok(
    in_hand: JiraAuth,
    reread: Option<JiraAuth>,
    now: i64,
    r: RefreshPlan,
) -> bool {
    let fresh = fresh_credentials(in_hand, reread);
    if !expired_at(fresh, now) {
        r == RefreshPlan::UseStored(fresh)
    } else {
        match fresh {
            JiraAuth::OAuth2 { refresh_token, .. } => r matches RefreshPlan::Refresh(t) && t@
                == refresh_token@,
            JiraAuth::ApiToken { .. } => r == RefreshPlan::UseStored(fresh),
        }
    }
}

/// The redirect URI of the OAuth callback under a server's public base URL.
pub open spec fn redirect_uri_for(base_url: Option<Seq<char>>) -> Seq<char> {
    let base = match base_url {
        Some(b) => b,
        None => "http://localhost:8081"@,
    };
    base + "/jira/oauth/callback"@
}

/// The CSRF state of an authorize request: the organization id, `:`, and the
/// URL-safe Base64 HMAC-SHA256 of the id under the client secret.
pub open spec fn state_param(org_id: Seq<char>, client_secret: Seq<char>) -> Seq<char> {
    org_id + ":"@ + base64_encode(
        hmac_sha256_tag(encode_utf8(client_secret), encode_utf8(org_id)),
        true,
        false,
    )
}

/// The Atlassian authorize URL.
pub open spec fn authorize_url_text(
    client_id: Seq<char>,
    redirect_uri: Seq<char>,
    state: Seq<char>,
) -> Seq<char> {
    "https://auth.atlassian.com/authorize?audience=api.atlassian.com&client_id="@ + percent_encode(
        encode_utf8(client_id),
    ) + "&scope="@ + percent_encode(encode_utf8(oauth_scopes())) + "&redirect_uri="@
        + percent_encode(encode_utf8(redirect_uri)) + "&state="@ + percent_encode(
        encode_utf8(state),
    ) + "&response_type=code&prompt=consent"@
}

// ---------------------------------------------------------------------------
// Implementation
// ---------------------------------------------------------------------------

/// One text entry of a JSON object.
fn text_entry(key: &str, value: &str) -> (r: (String, Json))
    ensures
        r.0@ == key@,
        r.1 matches Json::Text(t) && t@ == value@,
{
    (owned(key), Json::Text(owned(value)))
}

/// The JSON body that exchanges an authorization code for tokens.
pub fn exchange_request_body(
    client_id: &str,
    client_secret: &str,
    code: &str,
    redirect_uri: &str,
) -> (r: Json)
    ensures
        is_text_object(r, exchange_fields(client_id@, client_secret@, code@, redirect_uri@)),
{
    let mut e: Vec<(String, Json)> = Vec::new();
    e.push(text_entry("client_id", client_id));
    e.push(text_entry("client_secret", client_secret));
    e.push(text_entry("code", code));
    e.push(text_entry("grant_type", "authorization_code"));
    e.push(text_entry("redirect_uri", redirect_uri));
    Json::Object(e)
}

/// The JSON body that refreshes an OAuth2 token.
pub fn refresh_request_body(client_id: &str, client_secret: &str, refresh_token: &str) -> (r:
    Json)
    ensures
        is_text_object(r, refresh_fields(client_id@, client_secret@, refresh_token@)),
{
    let mut e: Vec<(String, Json)> = Vec::new();
    e.push(text_entry("client_id", client_id));
    e.push(text_entry("client_secret", client_secret));
    e.push(text_entry("grant_type", "refresh_token"));
    e.push(text_entry("refresh_token", refresh_token));
    Json::Object(e)
}

/// OAuth2 credentials from a token answer received at `now`; `fallback` is
/// the refresh token kept when the answer carries none.
pub fn credentials_from_token_at(token: OAuthTokenResponse, fallback: &str, now: i64) -> (r:
    JiraAuth)
    requires
        expiry_fits(token.expires_in, now),
    ensures
        credentials_from(r, token, fallback@, now),
{
    let expires_at = match token.expires_in {
        Some(secs) => Some(now + secs),
        None => None,
    };
    let refresh_token = match token.refresh_token {
        Some(t) => t,
        None => owned(fallback),
    };
    JiraAuth::OAuth2 { access_token: token.access_token, refresh_token, expires_at }
}

/// The message of an error: a fixed prefix and a detail.
fn prefixed(prefix: &str, detail: &str) -> (r: String)
    ensures
        r@ == prefix@ + detail@,
{
    let mut m = String::new();
    push_str(&mut m, prefix);
    push_str(&mut m, detail);
    m
}

/// The outcome of exchanging an authorization code, from the token
/// endpoint's answer: its status, its body, and the body parsed as a token
/// answer (or the parse error's text), received at `now`.
pub fn exchange_outcome_at(
    status: u16,
    body: &str,
    parsed: Result<OAuthTokenResponse, String>,
    now: i64,
) -> (r: Result<JiraAuth, JiraError>)
    requires
        is_success(status) && parsed is Ok ==> expiry_fits(parsed->Ok_0.expires_in, now),
    ensures
        exchange_outcome_ok(status, body@, parsed, now, r),
{
    if !(200 <= status && status <= 299) {
        return Err(
            JiraError::ApiError { status, message: prefixed("OAuth token exchange failed: ", body) },
        );
    }
    match parsed {
        Err(e) => Err(
            JiraError::Parse(prefixed("failed to parse OAuth token response: ", e.as_str())),
        ),
        Ok(t) => {
            proof {
                reveal_strlit("");
                assert(""@ =~= Seq::<char>::empty());
            }
            Ok(credentials_from_token_at(t, "", now))
        },
    }
}

/// The outcome of exchanging an authorization code, with the expiry counted
/// from the clock's current time.
pub fn exchange_outcome(status: u16, body: &str, parsed: Result<OAuthTokenResponse, String>) -> (r:
    Result<JiraAuth, JiraError>)
    requires
        is_success(status) && parsed is Ok ==> expires_in_bounded(parsed->Ok_0.expires_in),
    ensures
        exists|now: i64|
            -clock_bound() <= now <= clock_bound() && exchange_outcome_ok(status, body@, parsed, now, r),
{
    let now = unix_now();
    exchange_outcome_at(status, body, parsed, now)
}

/// The outcome of refreshing a token, from the token endpoint's answer: its
/// status, its body, and the body parsed as a token answer (or the parse
/// error's text), received at `now`. Atlassian rotates refresh tokens; the
/// old one is kept only when the answer carries none.
pub fn refresh_outcome_at(
    status: u16,
    body: &str,
    parsed: Result<OAuthTokenResponse, String>,
    refresh_token: &str,
    now: i64,
) -> (r: Result<JiraAuth, JiraError>)
    requires
        is_success(status) && parsed is Ok ==> expiry_fits(parsed->Ok_0.expires_in, now),
    ensures
        refresh_outcome_ok(status, body@, parsed, refresh_token@, now, r),
{
    if !(200 <= status && status <= 299) {
        let mut m = String::new();
        push_str(&mut m, "OAuth token refresh failed (");
        let code = decimal_string(status as u64);
        push_str(&mut m, code.as_str());
        push_str(&mut m, "): ");
        push_str(&mut m, body);
        return Err(JiraError::AuthFailed(m));
    }
    match parsed {
        Err(e) => Err(
            JiraError::Parse(prefixed("failed to parse OAuth refresh response: ", e.as_str())),
        ),
        Ok(t) => Ok(credentials_from_token_at(t, refresh_token, now)),
    }
}

/// The outcome of refreshing a token, with the expiry counted from the
/// clock's current time.
pub fn refresh_outcome(
    status: u16,
    body: &str,
    parsed: Result<OAuthTokenResponse, String>,
    refresh_token: &str,
) -> (r: Result<JiraAuth, JiraError>)
    requires
        is_success(status) && parsed is Ok ==> expires_in_bounded(parsed->Ok_0.expires_in),
    ensures
        exists|now: i64|
            -clock_bound() <= now <= clock_bound() && refresh_outcome_ok(
                status,
                body@,
                parsed,
                refresh_token@,
                now,
                r,
            ),
{
    let now = unix_now();
    refresh_outcome_at(status, body, parsed, refresh_token, now)
}

/// The outcome of listing the accessible sites, from the endpoint's answer:
/// its status, its body, and the body parsed as a list of sites (or the
/// parse error's text).
pub fn resources_outcome(
    status: u16,
    body: &str,
    parsed: Result<Vec<AtlassianSite>, String>,
) -> (r: Result<Vec<AtlassianSite>, JiraError>)
    ensures
        !is_success(status) ==> (r matches Err(JiraError::ApiError { status: s, message: m }) && s
            == status && m@ == "failed to fetch accessible resources: "@ + body@),
        is_success(status) ==> match parsed {
            Err(e) => r matches Err(JiraError::Parse(m)) && m@
                == "failed to parse accessible resources: "@ + e@,
            Ok(sites) => r matches Ok(v) && v@ == sites@,
        },
{
    if !(200 <= status && status <= 299) {
        return Err(
            JiraError::ApiError {
                status,
                message: prefixed("failed to fetch accessible resources: ", body),
            },
        );
    }
    match parsed {
        Err(e) => Err(JiraError::Parse(prefixed("failed to parse accessible resources: ", e.as_str()))),
        Ok(sites) => Ok(sites),
    }
}

/// The first step of a refresh: credentials other than OAuth2 are used as
/// they are (`Ok(false)`); refreshing OAuth2 credentials (`Ok(true)`) needs
/// the OAuth client to be configured.
pub fn refresh_precheck(auth: &JiraAuth, configured: bool) -> (r: Result<bool, JiraError>)
    ensures
        !(auth is OAuth2) ==> (r matches Ok(go) && !go),
        auth is OAuth2 && !configured ==> (r matches Err(e) && e is NotConfigured),
        auth is OAuth2 && configured ==> (r matches Ok(go) && go),
{
    match auth {
        JiraAuth::OAuth2 { .. } => if configured {
            Ok(true)
        } else {
            Err(JiraError::NotConfigured)
        },
        JiraAuth::ApiToken { .. } => Ok(false),
    }
}

/// The refresh decision under the lock at `now`: credentials that are not
/// (or no longer) expired are used as they are; expired OAuth2 credentials
/// are refreshed with their refresh token.
pub fn plan_refresh_at(in_hand: JiraAuth, reread: Option<JiraAuth>, now: i64) -> (r: RefreshPlan)
    ensures
        refresh_plan_ok(in_hand, reread, now, r),
{
    let fresh = match reread {
        Some(a) => a,
        None => in_hand,
    };
    if !fresh.is_expired_at(now) {
        return RefreshPlan::UseStored(fresh);
    }
    match fresh {
        JiraAuth::OAuth2 { refresh_token, .. } => RefreshPlan::Refresh(refresh_token),
        JiraAuth::ApiToken { .. } => RefreshPlan::UseStored(fresh),
    }
}

/// The refresh decision at the clock's current time.
pub fn plan_refresh(in_hand: JiraAuth, reread: Option<JiraAuth>) -> (r: RefreshPlan)
    ensures
        exists|now: i64|
            -clock_bound() <= now <= clock_bound() && refresh_plan_ok(in_hand, reread, now, r),
{
    let now = unix_now();
    plan_refresh_at(in_hand, reread, now)
}

/// The CSRF-safe state of an authorize request.
pub fn oauth_state(org_id: &str, client_secret: &str) -> (r: String)
    ensures
        r@ == state_param(org_id@, client_secret@),
{
    let tag = hmac_sha256(client_secret.as_bytes(), org_id.as_bytes());
    let sig = base64_url_encode(tag.as_slice());
    let mut r = String::new();
    push_str(&mut r, org_id);
    push_str(&mut r, ":");
    push_str(&mut r, sig.as_str());
    assert(r@ =~= state_param(org_id@, client_secret@));
    r
}

/// The redirect URI of the OAuth callback.
pub fn redirect_uri(base_url: Option<&str>) -> (r: String)
    ensures
        r@ == redirect_uri_for(
            match base_url {
                Some(b) => Some(b@),
                None => None,
            },
        ),
{
    let mut r = String::new();
    match base_url {
        Some(b) => push_str(&mut r, b),
        None => push_str(&mut r, "http://localhost:8081"),
    }
    push_str(&mut r, "/jira/oauth/callback");
    r
}

/// The Atlassian authorize URL for an organization.
pub fn authorize_url(client_id: &str, client_secret: &str, base_url: Option<&str>, org_id: &str) -> (r:
    String)
    ensures
        r@ == authorize_url_text(
            client_id@,
            redirect_uri_for(
                match base_url {
                    Some(b) => Some(b@),
                    None => None,
                },
            ),
            state_param(org_id@, client_secret@),
        ),
{
    let redirect = redirect_uri(base_url);
    let state = oauth_state(org_id, client_secret);
    let client = url_encode(client_id);
    let scopes = url_encode("read:jira-work write:jira-work read:jira-user offline_access");
    let redirect_enc = url_encode(redirect.as_str());
    let state_enc = url_encode(state.as_str());
    let mut r = String::new();
    push_str(&mut r, "https://auth.atlassian.com/authorize?audience=api.atlassian.com&client_id=");
    push_str(&mut r, client.as_str());
    push_str(&mut r, "&scope=");
    push_str(&mut r, scopes.as_str());
    push_str(&mut r, "&redirect_uri=");
    push_str(&mut r, redirect_enc.as_str());
    push_str(&mut r, "&state=");
    push_str(&mut r, state_enc.as_str());
    push_str(&mut r, "&response_type=code&prompt=consent");
    r
}

} // verus!
