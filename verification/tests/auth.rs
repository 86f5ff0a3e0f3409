use base64::Engine;
use jira_client::auth::JiraAuth;
use jira_client::error::JiraError;
use reqwest::header::AUTHORIZATION;

fn oauth(expires_at: Option<i64>) -> JiraAuth {
    JiraAuth::OAuth2 {
        access_token: "t".to_string(),
        refresh_token: "r".to_string(),
        expires_at,
    }
}

// --- auth_headers ---

#[test]
fn test_bearer_auth_header() {
    let auth = JiraAuth::OAuth2 {
        access_token: "tok_abc123".to_string(),
        refresh_token: "ref_xyz".to_string(),
        expires_at: None,
    };
    let headers = auth.auth_headers().unwrap();
    let value = headers.get(AUTHORIZATION).unwrap().to_str().unwrap();
    assert_eq!(value, "Bearer tok_abc123");
}

#[test]
fn test_api_token_auth_header() {
    let auth = JiraAuth::ApiToken {
        email: "user@example.com".to_string(),
        token: "mytoken".to_string(),
    };
    let headers = auth.auth_headers().unwrap();
    let value = headers.get(AUTHORIZATION).unwrap().to_str().unwrap();
    // base64("user@example.com:mytoken")
    let expected = format!(
        "Basic {}",
        base64::engine::general_purpose::STANDARD.encode("user@example.com:mytoken")
    );
    assert_eq!(value, expected);
}

// --- is_expired ---

#[test]
fn test_is_expired_past_timestamp() {
    let past = chrono::Utc::now().timestamp() - 100;
    let auth = oauth(Some(past));
    assert!(auth.is_expired(), "100s-old token should be expired");
}

#[test]
fn test_is_not_expired_future_timestamp() {
    let future = chrono::Utc::now().timestamp() + 3600;
    let auth = oauth(Some(future));
    assert!(
        !auth.is_expired(),
        "token expiring in 1h should not be expired"
    );
}

#[test]
fn test_is_expired_within_grace_period() {
    // 30 seconds from now is within the 60s grace period → treated as expired
    let soon = chrono::Utc::now().timestamp() + 30;
    let auth = oauth(Some(soon));
    assert!(
        auth.is_expired(),
        "token expiring in 30s (within 60s grace) should be treated as expired"
    );
}

#[test]
fn test_is_expired_no_expiry() {
    let auth = oauth(None);
    assert!(
        !auth.is_expired(),
        "OAuth2 with no expiry info should not be expired"
    );
}

#[test]
fn test_api_token_never_expired() {
    let auth = JiraAuth::ApiToken {
        email: "a@b.com".to_string(),
        token: "tok".to_string(),
    };
    assert!(!auth.is_expired(), "API token auth never expires");
}

// --- own tests ---

#[test]
fn expiry_boundary_at_exactly_sixty_seconds() {
    let auth = oauth(Some(1_000));
    assert!(auth.is_expired_at(940));
    assert!(!auth.is_expired_at(939));
    assert!(auth.is_expired_at(5_000));
}

#[test]
fn expiry_never_for_missing_expiry_or_api_token() {
    assert!(!oauth(None).is_expired_at(i64::MAX));
    let api = JiraAuth::ApiToken {
        email: "a@b.com".to_string(),
        token: "tok".to_string(),
    };
    assert!(!api.is_expired_at(i64::MAX));
}

#[test]
fn authorization_value_exact_texts() {
    let bearer = JiraAuth::OAuth2 {
        access_token: "abc".to_string(),
        refresh_token: "r".to_string(),
        expires_at: None,
    };
    assert_eq!(bearer.authorization_value(), "Bearer abc");
    let basic = JiraAuth::ApiToken {
        email: "a".to_string(),
        token: "b".to_string(),
    };
    // base64("a:b") == "YTpi"
    assert_eq!(basic.authorization_value(), "Basic YTpi");
}

#[test]
fn bearer_header_with_control_character_is_refused() {
    let auth = JiraAuth::OAuth2 {
        access_token: "bad\ntoken".to_string(),
        refresh_token: "r".to_string(),
        expires_at: None,
    };
    match auth.auth_headers() {
        Err(JiraError::AuthFailed(msg)) => {
            assert_eq!(msg, "invalid access token header: failed to parse header value")
        }
        other => panic!("expected AuthFailed, got {other:?}"),
    }
}

#[test]
fn api_token_header_with_non_ascii_email_is_accepted() {
    let auth = JiraAuth::ApiToken {
        email: "ünïcode@example.com".to_string(),
        token: "tök".to_string(),
    };
    let headers = auth.auth_headers().unwrap();
    assert_eq!(headers.len(), 1);
    let expected = format!(
        "Basic {}",
        base64::engine::general_purpose::STANDARD.encode("ünïcode@example.com:tök")
    );
    assert_eq!(headers.get(AUTHORIZATION).unwrap().to_str().unwrap(), expected);
}

#[test]
fn expiry_far_in_the_past_or_future() {
    assert!(oauth(Some(i64::MIN)).is_expired());
    assert!(oauth(Some(i64::MIN)).is_expired_at(i64::MIN));
    assert!(oauth(Some(i64::MAX)).is_expired_at(i64::MAX));
    assert!(!oauth(Some(i64::MAX)).is_expired_at(0));
    assert!(!oauth(Some(i64::MAX)).is_expired());
}
