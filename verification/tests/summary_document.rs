use jira_client::adf::adf_to_markdown;
use jira_client::document::{comment_body, line_document, transition_body};
use jira_client::error::{add_comment_result, transition_result, JiraError};
use jira_client::json::{Json, JsonNumber};
use jira_client::summary::{len_utf8, summary_comment, truncate_description};

#[test]
fn summary_with_description_and_pull_requests() {
    let text = summary_comment(
        "Fix login",
        Some("The form breaks."),
        &vec!["https://gh/pr/1".to_string(), "https://gh/pr/2".to_string()],
    );
    assert_eq!(
        text,
        "[Posted via Vibe Kanban]\n\nFix login\n\nThe form breaks.\nPR: https://gh/pr/1\nPR: https://gh/pr/2"
    );
}

#[test]
fn summary_without_or_with_empty_description() {
    assert_eq!(summary_comment("T", None, &vec![]), "[Posted via Vibe Kanban]\n\nT");
    assert_eq!(summary_comment("T", Some(""), &vec![]), "[Posted via Vibe Kanban]\n\nT");
}

#[test]
fn long_descriptions_are_cut_after_byte_500() {
    let short = "a".repeat(500);
    assert_eq!(truncate_description(&short), short);
    let long = "a".repeat(501);
    assert_eq!(truncate_description(&long), format!("{}...", "a".repeat(500)));
    // 499 ASCII bytes, then a 2-byte char starting at byte 499: it is kept whole.
    let mixed = format!("{}é{}", "a".repeat(499), "b".repeat(10));
    assert_eq!(truncate_description(&mixed), format!("{}é...", "a".repeat(499)));
    assert_eq!(len_utf8('a'), 1);
    assert_eq!(len_utf8('é'), 2);
    assert_eq!(len_utf8('€'), 3);
    assert_eq!(len_utf8('😀'), 4);
}

fn keys(j: &Json) -> Vec<String> {
    match j {
        Json::Object(e) => e.iter().map(|(k, _)| k.clone()).collect(),
        _ => panic!("not an object"),
    }
}

#[test]
fn comment_body_is_adf_document_with_a_paragraph_per_line() {
    let body = comment_body("one\r\ntwo\n");
    assert_eq!(keys(&body), vec!["body"]);
    let doc = match &body {
        Json::Object(e) => &e[0].1,
        _ => unreachable!(),
    };
    assert_eq!(keys(doc), vec!["content", "type", "version"]);
    match doc {
        Json::Object(e) => {
            assert!(matches!(&e[2].1, Json::Number(JsonNumber::PosInt(1))));
            match &e[0].1 {
                Json::Array(ps) => assert_eq!(ps.len(), 2),
                _ => panic!("content not an array"),
            }
        }
        _ => unreachable!(),
    }
    // Posted text reads back through the converter as its lines.
    assert_eq!(adf_to_markdown(&line_document("one\r\ntwo\n")), "one\n\ntwo\n\n");
    assert_eq!(adf_to_markdown(&line_document("")), "");
}

#[test]
fn transition_body_shape() {
    let b = transition_body("31");
    assert_eq!(keys(&b), vec!["transition"]);
    match &b {
        Json::Object(e) => match &e[0].1 {
            Json::Object(inner) => {
                assert_eq!(inner[0].0, "id");
                assert!(matches!(&inner[0].1, Json::Text(t) if t == "31"));
            }
            _ => panic!(),
        },
        _ => panic!(),
    }
}

#[test]
fn errors_from_status_and_retry() {
    assert!(matches!(JiraError::from_status(401, "m".into()), JiraError::AuthFailed(m) if m == "m"));
    assert!(matches!(
        JiraError::from_status(403, "m".into()),
        JiraError::InsufficientPermissions(_)
    ));
    assert!(matches!(JiraError::from_status(404, "m".into()), JiraError::NotFound(_)));
    assert!(matches!(JiraError::from_status(429, "m".into()), JiraError::RateLimited));
    assert!(matches!(
        JiraError::from_status(500, "m".into()),
        JiraError::ApiError { status: 500, .. }
    ));
    assert!(JiraError::RateLimited.should_retry());
    assert!(JiraError::ApiError { status: 503, message: String::new() }.should_retry());
    assert!(!JiraError::ApiError { status: 500, message: String::new() }.should_retry());
    assert!(!JiraError::NotConfigured.should_retry());
    assert!(!JiraError::Parse("x".into()).should_retry());
}

#[test]
fn required_field_rejection_and_status_fallback() {
    let e = JiraError::ApiError {
        status: 400,
        message: "{\"errors\":{\"x\":\"Field is required\",\"y\":\"field is required\"}}".into(),
    };
    assert!(e.is_required_field_rejection());
    let other = JiraError::ApiError { status: 409, message: "field is required".into() };
    assert!(!other.is_required_field_rejection());
    assert!(JiraError::NotFound("x".into()).falls_back_to_legacy_statuses());
    assert!(JiraError::Parse("x".into()).falls_back_to_legacy_statuses());
    assert!(JiraError::ApiError { status: 404, message: String::new() }.falls_back_to_legacy_statuses());
    assert!(!JiraError::ApiError { status: 500, message: String::new() }.falls_back_to_legacy_statuses());
    assert!(!JiraError::RateLimited.falls_back_to_legacy_statuses());
}

#[test]
fn error_messages() {
    assert_eq!(JiraError::AuthFailed("x".into()).to_string(), "Authentication failed: x");
    assert_eq!(
        JiraError::InsufficientPermissions("x".into()).to_string(),
        "Insufficient permissions: x"
    );
    assert_eq!(JiraError::NotFound("x".into()).to_string(), "Resource not found: x");
    assert_eq!(JiraError::RateLimited.to_string(), "Rate limited by Jira API");
    assert_eq!(
        JiraError::ApiError { status: 400, message: "bad".into() }.to_string(),
        "Jira API error (400): bad"
    );
    assert_eq!(JiraError::Parse("x".into()).to_string(), "Failed to parse response: x");
    assert_eq!(JiraError::NotConfigured.to_string(), "No Jira connection configured");
}

#[test]
fn request_outcomes_by_status() {
    assert!(transition_result(204, String::new()).is_ok());
    assert!(matches!(transition_result(404, "gone".into()), Err(JiraError::NotFound(m)) if m == "gone"));
    assert!(matches!(transition_result(429, String::new()), Err(JiraError::RateLimited)));
    assert!(add_comment_result(201, String::new()).is_ok());
    assert!(matches!(
        add_comment_result(404, "gone".into()),
        Err(JiraError::ApiError { status: 404, message }) if message == "gone"
    ));
}
