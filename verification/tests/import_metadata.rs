use jira_client::error::JiraError;
use jira_client::import::{
    cached_transitions, import_keys, invalid_key_message, next_import_action,
    sync_failure_message, ImportAction, ALREADY_IMPORTED_MESSAGE, TOO_MANY_ISSUES_MESSAGE,
};
use jira_client::import::{
    check_import_batch, comment_view, comment_views, connection_info, default_status_id,
    detected_site_url, effective_status_id, link_metadata, plan_connect_site, tag_labels,
    ConnectSite,
    ImportBatch, MAX_IMPORT_BATCH,
};
use jira_client::json::{Json, JsonNumber};
use jira_client::metadata::{
    imported_jira_keys, insert_field, is_jira_linked, jira_issue_key, keys_to_import,
    set_jira_fields, transitions_cache,
};
use jira_client::types::{
    api_token_auth, field_id_entries, AtlassianSite, JiraAuthPayload, JiraComment, JiraStatus,
    JiraStatusCategory, JiraTransition, JiraUser,
};
use jira_client::auth::JiraAuth;

fn s(t: &str) -> Json {
    Json::Text(t.to_string())
}

fn obj(entries: Vec<(&str, Json)>) -> Json {
    Json::Object(entries.into_iter().map(|(k, v)| (k.to_string(), v)).collect())
}

fn keys_of(j: &Json) -> Vec<String> {
    match j {
        Json::Object(e) => e.iter().map(|(k, _)| k.clone()).collect(),
        _ => panic!("not an object"),
    }
}

fn transition(id: &str, cat: Option<&str>) -> JiraTransition {
    JiraTransition {
        id: id.to_string(),
        name: format!("t{id}"),
        to: JiraStatus {
            id: "s".to_string(),
            name: "S".to_string(),
            status_category: cat.map(|k| JiraStatusCategory {
                id: 2,
                key: k.to_string(),
                name: k.to_string(),
            }),
        },
    }
}

#[test]
fn import_batch_sizes() {
    assert_eq!(MAX_IMPORT_BATCH, 20);
    assert_eq!(check_import_batch(0), ImportBatch::Nothing);
    assert_eq!(check_import_batch(1), ImportBatch::Proceed);
    assert_eq!(check_import_batch(20), ImportBatch::Proceed);
    assert_eq!(check_import_batch(21), ImportBatch::TooMany);
}

#[test]
fn default_and_effective_status() {
    assert_eq!(default_status_id(&vec![]), None);
    assert_eq!(default_status_id(&vec![(1, true), (2, false), (3, false)]), Some(2));
    assert_eq!(default_status_id(&vec![(1, true), (2, true)]), Some(1));
    let statuses = vec![(1, true), (2, false)];
    assert_eq!(effective_status_id(&statuses, 1, 2), 1);
    assert_eq!(effective_status_id(&statuses, 9, 2), 2);
}

#[test]
fn connect_site_plans() {
    assert!(matches!(plan_connect_site(" auto ", true), Ok(ConnectSite::AutoDetect)));
    assert!(matches!(plan_connect_site("", true), Ok(ConnectSite::AutoDetect)));
    assert!(matches!(plan_connect_site("/", true), Ok(ConnectSite::AutoDetect)));
    match plan_connect_site(" https://a.atlassian.net/ ", false) {
        Ok(ConnectSite::Given(u)) => assert_eq!(u, "https://a.atlassian.net"),
        other => panic!("unexpected {other:?}"),
    }
    match plan_connect_site("auto", false) {
        Err(m) => assert_eq!(m, "site_url must use HTTPS"),
        other => panic!("unexpected {other:?}"),
    }
}

#[test]
fn detected_site_is_first_without_trailing_slash() {
    assert_eq!(detected_site_url(&vec![]), None);
    let sites = vec![
        AtlassianSite { id: "1".into(), url: "https://one.atlassian.net//".into(), name: "One".into() },
        AtlassianSite { id: "2".into(), url: "https://two.atlassian.net".into(), name: "Two".into() },
    ];
    assert_eq!(detected_site_url(&sites), Some("https://one.atlassian.net".to_string()));
}

#[test]
fn connection_info_with_and_without_row() {
    let info = connection_info(Some(("https://a".into(), "api_token".into(), "2024".into())));
    assert!(info.connected);
    assert_eq!(info.site_url.as_deref(), Some("https://a"));
    assert_eq!(info.auth_type.as_deref(), Some("api_token"));
    assert_eq!(info.connected_at.as_deref(), Some("2024"));
    let none = connection_info(None);
    assert!(!none.connected && none.site_url.is_none() && none.auth_type.is_none());
}

#[test]
fn link_metadata_shape_and_key_read_back() {
    let transitions = transitions_cache(&vec![
        transition("11", Some("new")),
        transition("12", None),
        transition("21", Some("done")),
        transition("22", Some("done")),
    ]);
    let m = link_metadata(
        "AB-7",
        "10007",
        "https://a.atlassian.net",
        Some("To Do"),
        "2024-05-01T00:00:00+00:00",
        transitions,
    );
    assert_eq!(keys_of(&m), vec!["jira"]);
    let jira = match &m {
        Json::Object(e) => &e[0].1,
        _ => unreachable!(),
    };
    assert_eq!(
        keys_of(jira),
        vec![
            "imported_at",
            "issue_id",
            "issue_key",
            "issue_url",
            "jira_project_key",
            "jira_status",
            "transitions"
        ]
    );
    match jira {
        Json::Object(e) => {
            assert!(matches!(&e[3].1, Json::Text(t) if t == "https://a.atlassian.net/browse/AB-7"));
            assert!(matches!(&e[4].1, Json::Text(t) if t == "AB"));
            assert!(matches!(&e[5].1, Json::Text(t) if t == "To Do"));
            match &e[6].1 {
                Json::Object(t) => {
                    assert_eq!(t.len(), 2);
                    assert_eq!(t[0].0, "new");
                    assert!(matches!(&t[0].1, Json::Text(id) if id == "11"));
                    assert_eq!(t[1].0, "done");
                    assert!(matches!(&t[1].1, Json::Text(id) if id == "22"));
                }
                _ => panic!("transitions not an object"),
            }
        }
        _ => unreachable!(),
    }
    assert_eq!(jira_issue_key(&m), Some("AB-7".to_string()));
    assert!(is_jira_linked(&m));
    let no_status = link_metadata("AB-8", "1", "https://a", None, "now", obj(vec![]));
    match &no_status {
        Json::Object(e) => match &e[0].1 {
            Json::Object(inner) => assert!(matches!(inner[5].1, Json::Null)),
            _ => panic!(),
        },
        _ => panic!(),
    }
}

#[test]
fn imported_key_is_not_imported_again() {
    let m = link_metadata("ab-7", "1", "https://a", None, "now", obj(vec![]));
    let imported = imported_jira_keys(&vec![obj(vec![]), m, obj(vec![("jira", s("x"))])]);
    assert_eq!(imported, vec!["AB-7".to_string()]);
    let keys = vec!["AB-7".to_string(), "Ab-7".to_string(), "CD-1".to_string()];
    assert_eq!(keys_to_import(&keys, &imported), vec!["CD-1".to_string()]);
}

#[test]
fn set_jira_fields_inserts_into_jira_only() {
    let m = obj(vec![("a", s("1")), ("jira", obj(vec![("issue_key", s("K-1")), ("x", s("old"))]))]);
    let r = set_jira_fields(
        m,
        vec![("x".to_string(), s("new")), ("y".to_string(), Json::Bool(true))],
    );
    match &r {
        Json::Object(e) => {
            assert_eq!(e[0].0, "a");
            match &e[1].1 {
                Json::Object(inner) => {
                    let keys: Vec<&str> = inner.iter().map(|(k, _)| k.as_str()).collect();
                    assert_eq!(keys, vec!["issue_key", "x", "y"]);
                    assert!(matches!(&inner[1].1, Json::Text(t) if t == "new"));
                }
                _ => panic!(),
            }
        }
        _ => panic!(),
    }
    let unlinked = set_jira_fields(obj(vec![("a", s("1"))]), vec![("x".to_string(), s("v"))]);
    assert_eq!(keys_of(&unlinked), vec!["a"]);
    assert!(!is_jira_linked(&unlinked));
}

#[test]
fn insert_field_replaces_in_place_or_appends() {
    let mut e = vec![("a".to_string(), s("1")), ("b".to_string(), s("2"))];
    insert_field(&mut e, "a".to_string(), Json::Number(JsonNumber::PosInt(9)));
    insert_field(&mut e, "c".to_string(), Json::Null);
    let keys: Vec<&str> = e.iter().map(|(k, _)| k.as_str()).collect();
    assert_eq!(keys, vec!["a", "b", "c"]);
    assert!(matches!(e[0].1, Json::Number(JsonNumber::PosInt(9))));
}

#[test]
fn comment_views_default_author_and_body() {
    let with = JiraComment {
        id: "c1".to_string(),
        author: Some(JiraUser { account_id: "u".into(), display_name: "Ann".into() }),
        body: Some(obj(vec![
            ("type", s("doc")),
            (
                "content",
                Json::Array(vec![obj(vec![
                    ("type", s("paragraph")),
                    ("content", Json::Array(vec![obj(vec![("type", s("text")), ("text", s("hi"))])])),
                ])]),
            ),
        ])),
        created: Some("2024".to_string()),
        updated: None,
    };
    let v = comment_view(&with);
    assert_eq!(v.id, "c1");
    assert_eq!(v.author_name, "Ann");
    assert_eq!(v.body_markdown, "hi\n\n");
    assert_eq!(v.created.as_deref(), Some("2024"));
    let without = JiraComment { id: "c2".into(), author: None, body: None, created: None, updated: None };
    let views = comment_views(&vec![with, without]);
    assert_eq!(views.len(), 2);
    assert_eq!(views[1].author_name, "Unknown");
    assert_eq!(views[1].body_markdown, "");
}

#[test]
fn api_token_payload_becomes_credentials() {
    let p = JiraAuthPayload::ApiToken { email: "e@x".into(), token: "t".into() };
    assert_eq!(
        api_token_auth(&p),
        Some(JiraAuth::ApiToken { email: "e@x".into(), token: "t".into() })
    );
    let o = JiraAuthPayload::OAuth2 { code: "c".into(), redirect_uri: "r".into() };
    assert_eq!(api_token_auth(&o), None);
}

#[test]
fn field_ids_by_lowercase_name() {
    let fields = vec![
        ("customfield_10037".to_string(), "Acceptance Criteria".to_string()),
        ("summary".to_string(), "Summary".to_string()),
    ];
    assert_eq!(
        field_id_entries(&fields),
        vec![
            ("acceptance criteria".to_string(), "customfield_10037".to_string()),
            ("summary".to_string(), "summary".to_string()),
        ]
    );
}

#[test]
fn blank_labels_are_not_tagged() {
    let labels = vec![
        "backend".to_string(),
        "   ".to_string(),
        "".to_string(),
        " ui ".to_string(),
    ];
    assert_eq!(tag_labels(&labels), vec!["backend".to_string(), " ui ".to_string()]);
}

#[test]
fn import_messages() {
    assert_eq!(TOO_MANY_ISSUES_MESSAGE, "Cannot import more than 20 issues at once");
    assert_eq!(
        ALREADY_IMPORTED_MESSAGE,
        "All selected issues are already imported in this project"
    );
    assert_eq!(invalid_key_message("bad key"), "Invalid Jira issue key: bad key");
    assert_eq!(
        sync_failure_message(&JiraError::ApiError { status: 500, message: "boom".into() }),
        "Failed to sync status: Jira API error (500): boom"
    );
}

#[test]
fn import_goes_key_by_key_and_stops_at_invalid_key() {
    let imported = vec!["AB-1".to_string()];
    assert!(import_keys(&vec!["ab-1".to_string()], &imported).is_none());
    let keys = import_keys(
        &vec!["AB-1".to_string(), "AB-2".to_string(), "bad".to_string(), "AB-3".to_string()],
        &imported,
    )
    .unwrap();
    assert_eq!(keys, vec!["AB-2".to_string(), "bad".to_string(), "AB-3".to_string()]);
    assert!(matches!(next_import_action(&keys, 0), ImportAction::FetchIssue(k) if k == "AB-2"));
    assert!(matches!(next_import_action(&keys, 1), ImportAction::RejectKey(m)
        if m == "Invalid Jira issue key: bad"));
    assert!(matches!(next_import_action(&keys, 2), ImportAction::FetchIssue(k) if k == "AB-3"));
    assert!(matches!(next_import_action(&keys, 3), ImportAction::Finished));
}

#[test]
fn transitions_cache_falls_back_to_empty_object() {
    assert!(matches!(cached_transitions(None), Json::Object(e) if e.is_empty()));
    let ts = vec![transition("5", Some("done"))];
    match cached_transitions(Some(&ts)) {
        Json::Object(e) => {
            assert_eq!(e.len(), 1);
            assert_eq!(e[0].0, "done");
        }
        _ => panic!(),
    }
}
