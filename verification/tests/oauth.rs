use base64::Engine;
use hmac::Mac;
use jira_client::auth::JiraAuth;
use jira_client::error::JiraError;
use jira_client::json::Json;
use jira_client::oauth::{
    authorize_url, credentials_from_token_at, exchange_outcome, exchange_outcome_at,
    exchange_request_body, oauth_state, plan_refresh_at, redirect_uri, refresh_outcome_at,
    refresh_precheck,
    refresh_request_body, resources_outcome, OAuthTokenResponse, RefreshPlan,
};
use jira_client::types::AtlassianSite;

fn token(refresh: Option<&str>, expires_in: Option<i64>) -> OAuthTokenResponse {
    OAuthTokenResponse {
        access_token: "acc".to_string(),
        refresh_token: refresh.map(|r| r.to_string()),
        expires_in,
        token_type: Some("Bearer".to_string()),
        scope: None,
    }
}

fn text_entries(j: &Json) -> Vec<(String, String)> {
    match j {
        Json::Object(e) => e
            .iter()
            .map(|(k, v)| match v {
                Json::Text(t) => (k.clone(), t.clone()),
                _ => panic!("not a text"),
            })
            .collect(),
        _ => panic!("not an object"),
    }
}

fn pairs(v: &[(&str, &str)]) -> Vec<(String, String)> {
    v.iter().map(|(a, b)| (a.to_string(), b.to_string())).collect()
}

#[test]
fn exchange_body_fields() {
    let body = exchange_request_body("cid", "sec", "the-code", "https://app/cb");
    assert_eq!(
        text_entries(&body),
        pairs(&[
            ("client_id", "cid"),
            ("client_secret", "sec"),
            ("code", "the-code"),
            ("grant_type", "authorization_code"),
            ("redirect_uri", "https://app/cb"),
        ])
    );
}

#[test]
fn refresh_body_fields() {
    let body = refresh_request_body("cid", "sec", "rt");
    assert_eq!(
        text_entries(&body),
        pairs(&[
            ("client_id", "cid"),
            ("client_secret", "sec"),
            ("grant_type", "refresh_token"),
            ("refresh_token", "rt"),
        ])
    );
}

#[test]
fn credentials_count_expiry_from_now() {
    let a = credentials_from_token_at(token(Some("new-rt"), Some(3600)), "old", 1_000);
    assert_eq!(
        a,
        JiraAuth::OAuth2 {
            access_token: "acc".to_string(),
            refresh_token: "new-rt".to_string(),
            expires_at: Some(4_600),
        }
    );
    let b = credentials_from_token_at(token(None, None), "old", 1_000);
    assert_eq!(
        b,
        JiraAuth::OAuth2 {
            access_token: "acc".to_string(),
            refresh_token: "old".to_string(),
            expires_at: None,
        }
    );
}

#[test]
fn exchange_outcomes() {
    match exchange_outcome_at(400, "bad code", Err("unused".to_string()), 0) {
        Err(JiraError::ApiError { status, message }) => {
            assert_eq!(status, 400);
            assert_eq!(message, "OAuth token exchange failed: bad code");
        }
        other => panic!("unexpected {other:?}"),
    }
    match exchange_outcome_at(200, "", Err("missing field".to_string()), 0) {
        Err(JiraError::Parse(m)) => {
            assert_eq!(m, "failed to parse OAuth token response: missing field")
        }
        other => panic!("unexpected {other:?}"),
    }
    match exchange_outcome_at(200, "", Ok(token(None, Some(60))), 10) {
        Ok(a) => assert_eq!(
            a,
            JiraAuth::OAuth2 {
                access_token: "acc".to_string(),
                refresh_token: String::new(),
                expires_at: Some(70),
            }
        ),
        other => panic!("unexpected {other:?}"),
    }
}

#[test]
fn exchange_outcome_with_clock_sets_future_expiry() {
    let before = chrono::Utc::now().timestamp();
    match exchange_outcome(201, "", Ok(token(Some("r"), Some(3600)))) {
        Ok(JiraAuth::OAuth2 { expires_at: Some(exp), refresh_token, .. }) => {
            assert!(exp >= before + 3600);
            assert_eq!(refresh_token, "r");
        }
        other => panic!("unexpected {other:?}"),
    }
}

#[test]
fn refresh_outcomes() {
    match refresh_outcome_at(401, "expired", Err(String::new()), "rt", 0) {
        Err(JiraError::AuthFailed(m)) => {
            assert_eq!(m, "OAuth token refresh failed (401): expired")
        }
        other => panic!("unexpected {other:?}"),
    }
    match refresh_outcome_at(200, "", Err("eof".to_string()), "rt", 0) {
        Err(JiraError::Parse(m)) => assert_eq!(m, "failed to parse OAuth refresh response: eof"),
        other => panic!("unexpected {other:?}"),
    }
    match refresh_outcome_at(299, "", Ok(token(None, Some(100))), "kept", 5) {
        Ok(a) => assert_eq!(
            a,
            JiraAuth::OAuth2 {
                access_token: "acc".to_string(),
                refresh_token: "kept".to_string(),
                expires_at: Some(105),
            }
        ),
        other => panic!("unexpected {other:?}"),
    }
}

#[test]
fn resources_outcomes() {
    match resources_outcome(500, "boom", Ok(vec![])) {
        Err(JiraError::ApiError { status, message }) => {
            assert_eq!(status, 500);
            assert_eq!(message, "failed to fetch accessible resources: boom");
        }
        other => panic!("unexpected {other:?}"),
    }
    match resources_outcome(200, "", Err("bad json".to_string())) {
        Err(JiraError::Parse(m)) => assert_eq!(m, "failed to parse accessible resources: bad json"),
        other => panic!("unexpected {other:?}"),
    }
    let site = AtlassianSite {
        id: "1".to_string(),
        url: "https://a.atlassian.net".to_string(),
        name: "A".to_string(),
    };
    assert_eq!(resources_outcome(200, "", Ok(vec![site.clone()])).unwrap(), vec![site]);
}

fn oauth(exp: Option<i64>, rt: &str) -> JiraAuth {
    JiraAuth::OAuth2 {
        access_token: "a".to_string(),
        refresh_token: rt.to_string(),
        expires_at: exp,
    }
}

#[test]
fn refresh_plans() {
    // Another request refreshed meanwhile: the re-read credentials are fresh.
    match plan_refresh_at(oauth(Some(100), "old"), Some(oauth(Some(10_000), "new")), 1_000) {
        RefreshPlan::UseStored(a) => assert_eq!(a, oauth(Some(10_000), "new")),
        other => panic!("unexpected {other:?}"),
    }
    // Still expired: refresh with the re-read refresh token.
    match plan_refresh_at(oauth(Some(100), "old"), Some(oauth(Some(200), "newer")), 1_000) {
        RefreshPlan::Refresh(t) => assert_eq!(t, "newer"),
        other => panic!("unexpected {other:?}"),
    }
    // The re-read failed: the credentials in hand decide.
    match plan_refresh_at(oauth(Some(100), "old"), None, 1_000) {
        RefreshPlan::Refresh(t) => assert_eq!(t, "old"),
        other => panic!("unexpected {other:?}"),
    }
    let api = JiraAuth::ApiToken { email: "e".to_string(), token: "t".to_string() };
    match plan_refresh_at(api.clone(), None, 1_000) {
        RefreshPlan::UseStored(a) => assert_eq!(a, api),
        other => panic!("unexpected {other:?}"),
    }
}

#[test]
fn state_is_org_id_and_hmac() {
    let state = oauth_state("org-1", "secret");
    let mut mac = hmac::Hmac::<sha2::Sha256>::new_from_slice(b"secret").unwrap();
    mac.update(b"org-1");
    let sig = base64::engine::general_purpose::URL_SAFE_NO_PAD.encode(mac.finalize().into_bytes());
    assert_eq!(state, format!("org-1:{sig}"));
    assert_eq!(sig.len(), 43);
}

#[test]
fn redirect_uri_defaults_to_localhost() {
    assert_eq!(redirect_uri(None), "http://localhost:8081/jira/oauth/callback");
    assert_eq!(
        redirect_uri(Some("https://vk.example")),
        "https://vk.example/jira/oauth/callback"
    );
}

#[test]
fn authorize_url_is_encoded() {
    let url = authorize_url("my id", "secret", Some("https://vk.example"), "org-1");
    let state = oauth_state("org-1", "secret");
    let expected = format!(
        "https://auth.atlassian.com/authorize?audience=api.atlassian.com&client_id=my%20id&scope=read%3Ajira-work%20write%3Ajira-work%20read%3Ajira-user%20offline_access&redirect_uri=https%3A%2F%2Fvk.example%2Fjira%2Foauth%2Fcallback&state={}&response_type=code&prompt=consent",
        urlencoding::encode(&state)
    );
    assert_eq!(url, expected);
    assert!(url.contains("&state=org-1%3A"));
}

#[test]
fn refresh_precheck_steps() {
    let api = JiraAuth::ApiToken { email: "e".to_string(), token: "t".to_string() };
    assert!(matches!(refresh_precheck(&api, false), Ok(false)));
    assert!(matches!(refresh_precheck(&oauth(None, "r"), false), Err(JiraError::NotConfigured)));
    assert!(matches!(refresh_precheck(&oauth(None, "r"), true), Ok(true)));
}

#[test]
fn refresh_plan_uses_reread_even_when_in_hand_expiry_is_extreme() {
    match plan_refresh_at(oauth(Some(i64::MIN), "old"), Some(oauth(Some(10_000), "new")), 1_000) {
        RefreshPlan::UseStored(a) => assert_eq!(a, oauth(Some(10_000), "new")),
        other => panic!("unexpected {other:?}"),
    }
    match jira_client::oauth::plan_refresh(oauth(Some(i64::MIN), "old"), None) {
        RefreshPlan::Refresh(t) => assert_eq!(t, "old"),
        other => panic!("unexpected {other:?}"),
    }
}
