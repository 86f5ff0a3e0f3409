use jira_client::json::Json;
use jira_client::status::{
    cached_transition_id, equal_ignoring_ascii_case, find_transition, map_jira_priority,
    map_status_to_jira_category, resolve_sync_category, resolve_writeback_category,
    status_conflict, status_views, writeback_status_category, IssuePriority,
};
use jira_client::error::JiraError;
use jira_client::sync::{
    conflict_metadata, plan_status_sync, recorded_jira_status, sync_step, synced_metadata,
    SyncAction, SyncEvent, SyncFailure, SyncPlan, SyncState,
};
use jira_client::metadata::jira_issue_key;
use jira_client::types::{JiraStatus, JiraStatusCategory, JiraTransition, StatusMappingRow};

fn s(t: &str) -> Json {
    Json::Text(t.to_string())
}

fn obj(entries: Vec<(&str, Json)>) -> Json {
    Json::Object(entries.into_iter().map(|(k, v)| (k.to_string(), v)).collect())
}

fn status(name: &str, cat: Option<(&str, &str)>) -> JiraStatus {
    JiraStatus {
        id: format!("id-{name}"),
        name: name.to_string(),
        status_category: cat.map(|(k, n)| JiraStatusCategory {
            id: 1,
            key: k.to_string(),
            name: n.to_string(),
        }),
    }
}

fn transition(id: &str, name: &str, cat: Option<&str>) -> JiraTransition {
    JiraTransition {
        id: id.to_string(),
        name: name.to_string(),
        to: status(name, cat.map(|k| (k, k))),
    }
}

fn mapping(name: &str, cat: &str) -> StatusMappingRow {
    StatusMappingRow {
        vk_status_name: name.to_string(),
        jira_category_key: cat.to_string(),
    }
}

#[test]
fn jira_priorities_map_case_insensitively() {
    assert_eq!(map_jira_priority("Highest"), Some(IssuePriority::Urgent));
    assert_eq!(map_jira_priority("blocker"), Some(IssuePriority::Urgent));
    assert_eq!(map_jira_priority("Critical"), Some(IssuePriority::High));
    assert_eq!(map_jira_priority("MEDIUM"), Some(IssuePriority::Medium));
    assert_eq!(map_jira_priority("Trivial"), Some(IssuePriority::Low));
    assert_eq!(map_jira_priority("lowest"), Some(IssuePriority::Low));
    assert_eq!(map_jira_priority("weird"), None);
}

#[test]
fn default_status_categories() {
    assert_eq!(map_status_to_jira_category("Done"), Some("done"));
    assert_eq!(map_status_to_jira_category("canceled"), Some("done"));
    assert_eq!(map_status_to_jira_category("In Progress"), Some("indeterminate"));
    assert_eq!(map_status_to_jira_category("inreview"), Some("indeterminate"));
    assert_eq!(map_status_to_jira_category("Backlog"), Some("new"));
    assert_eq!(map_status_to_jira_category("Blocked"), None);
}

#[test]
fn writeback_defaults_do_not_know_joined_spellings() {
    assert_eq!(writeback_status_category("inprogress"), None);
    assert_eq!(writeback_status_category("inreview"), None);
    assert_eq!(writeback_status_category("in_progress"), Some("indeterminate"));
    assert_eq!(writeback_status_category("To Do"), Some("new"));
}

#[test]
fn custom_mapping_wins_and_ignores_ascii_case() {
    let mappings = vec![mapping("In Progress", "custom"), mapping("in progress", "later")];
    assert_eq!(
        resolve_sync_category(&mappings, "IN PROGRESS"),
        Some("custom".to_string())
    );
    assert_eq!(resolve_sync_category(&mappings, "Done"), Some("done".to_string()));
    assert_eq!(resolve_writeback_category(&mappings, "Nope"), None);
    assert!(equal_ignoring_ascii_case("AbC", "aBc"));
    assert!(!equal_ignoring_ascii_case("abc", "abd"));
}

#[test]
fn first_transition_into_category_is_found() {
    let ts = vec![
        transition("1", "Start", None),
        transition("2", "Finish", Some("done")),
        transition("3", "Close", Some("done")),
    ];
    assert_eq!(find_transition(&ts, "done").map(|t| t.id.clone()), Some("2".to_string()));
    assert!(find_transition(&ts, "new").is_none());
}

#[test]
fn cached_transition_and_conflict() {
    let jm = obj(vec![("transitions", obj(vec![("done", s("31")), ("new", Json::Null)]))]);
    assert_eq!(cached_transition_id(&jm, "done"), Some("31".to_string()));
    assert_eq!(cached_transition_id(&jm, "new"), None);
    assert_eq!(cached_transition_id(&obj(vec![]), "done"), None);
    assert!(status_conflict("To Do", "Done"));
    assert!(!status_conflict("", "Done"));
    assert!(!status_conflict("Done", ""));
    assert!(!status_conflict("Done", "Done"));
}

#[test]
fn status_views_sorted_deduplicated_first_kept() {
    let statuses = vec![
        status("Beta", Some(("new", "To Do"))),
        status("Alpha", Some(("done", "Done"))),
        status("Beta", Some(("done", "Done"))),
        status("Gamma", None),
        status("alpha", Some(("new", "To Do"))),
    ];
    let views = status_views(&statuses);
    let names: Vec<&str> = views.iter().map(|v| v.name.as_str()).collect();
    assert_eq!(names, vec!["Alpha", "Beta", "alpha"]);
    assert_eq!(views[1].category_key, "new");
    assert_eq!(views[1].category_name, "To Do");
    assert!(status_views(&vec![]).is_empty());
}

fn linked(transitions: Json, jira_status: &str) -> Json {
    obj(vec![
        ("other", s("x")),
        (
            "jira",
            obj(vec![
                ("issue_key", s("AB-1")),
                ("jira_status", s(jira_status)),
                ("transitions", transitions),
            ]),
        ),
    ])
}

#[test]
fn sync_plans() {
    let mappings = vec![];
    assert!(matches!(
        plan_status_sync(&obj(vec![]), "Done", &mappings, false),
        SyncPlan::NotLinked
    ));
    assert!(matches!(
        plan_status_sync(&obj(vec![("jira", obj(vec![]))]), "Done", &mappings, false),
        SyncPlan::NoIssueKey
    ));
    let m = linked(obj(vec![("done", s("31"))]), "To Do");
    match plan_status_sync(&m, "Done", &mappings, true) {
        SyncPlan::Cached { issue_key, category, transition_id } => {
            assert_eq!(issue_key, "AB-1");
            assert_eq!(category, "done");
            assert_eq!(transition_id, "31");
        }
        other => panic!("unexpected {other:?}"),
    }
    match plan_status_sync(&m, "Backlog", &mappings, false) {
        SyncPlan::Lookup { issue_key, category } => {
            assert_eq!(issue_key, "AB-1");
            assert_eq!(category, "new");
        }
        other => panic!("unexpected {other:?}"),
    }
    match plan_status_sync(&m, "inreview", &mappings, true) {
        SyncPlan::NoMapping { issue_key } => assert_eq!(issue_key, "AB-1"),
        other => panic!("unexpected {other:?}"),
    }
}

#[test]
fn synced_metadata_records_status_and_keeps_key() {
    let m = linked(obj(vec![]), "To Do");
    assert_eq!(recorded_jira_status(&m), "To Do");
    let after = synced_metadata(m, "2024-01-01T00:00:00Z", "Done");
    assert_eq!(recorded_jira_status(&after), "Done");
    assert_eq!(jira_issue_key(&after), Some("AB-1".to_string()));
    match &after {
        Json::Object(e) => {
            assert_eq!(e[0].0, "other");
            match &e[1].1 {
                Json::Object(inner) => {
                    let keys: Vec<&str> = inner.iter().map(|(k, _)| k.as_str()).collect();
                    assert_eq!(keys, vec!["issue_key", "jira_status", "transitions", "last_synced_at"]);
                }
                _ => panic!("jira is not an object"),
            }
        }
        _ => panic!("metadata is not an object"),
    }
}

#[test]
fn conflict_metadata_records_current_status() {
    let m = linked(obj(vec![]), "To Do");
    let after = conflict_metadata(m, "In Review");
    assert_eq!(recorded_jira_status(&after), "In Review");
    let unlinked = obj(vec![("x", s("y"))]);
    let same = conflict_metadata(unlinked, "Done");
    assert_eq!(recorded_jira_status(&same), "");
}

fn begin(metadata: Json, status: &str) -> SyncEvent {
    SyncEvent::Begin { metadata, status_name: status.to_string(), mappings: vec![] }
}

#[test]
fn sync_steps_cached_transition_without_conflict() {
    let m = linked(obj(vec![("done", s("31"))]), "To Do");
    let (st, act) = sync_step(SyncState::Start, begin(m, "Done"), false);
    assert!(matches!(&act, SyncAction::FetchCurrentStatus { issue_key } if issue_key == "AB-1"));
    let (st, act) = sync_step(st, SyncEvent::CurrentStatus(Some("To Do".into())), false);
    assert!(matches!(&act, SyncAction::Transition { issue_key, transition_id }
        if issue_key == "AB-1" && transition_id == "31"));
    let (st, act) = sync_step(st, SyncEvent::Transitioned(Ok(())), false);
    assert!(matches!(act, SyncAction::RecordSynced));
    assert!(matches!(st, SyncState::Done));
}

#[test]
fn sync_steps_conflict_records_and_skips_transition() {
    let m = linked(obj(vec![("done", s("31"))]), "To Do");
    let (st, _) = sync_step(SyncState::Start, begin(m, "Done"), true);
    let (st, act) = sync_step(st, SyncEvent::CurrentStatus(Some("In Review".into())), true);
    assert!(matches!(&act, SyncAction::RecordConflict { current_status } if current_status == "In Review"));
    assert!(matches!(st, SyncState::Done));
}

#[test]
fn sync_steps_fetch_failure_of_current_skips_conflict_check() {
    let m = linked(obj(vec![("done", s("31"))]), "To Do");
    let (st, _) = sync_step(SyncState::Start, begin(m, "Done"), false);
    let (_, act) = sync_step(st, SyncEvent::CurrentStatus(None), false);
    assert!(matches!(act, SyncAction::Transition { .. }));
}

#[test]
fn sync_steps_lookup_and_failures() {
    let m = linked(obj(vec![]), "To Do");
    let (st, act) = sync_step(SyncState::Start, begin(m, "Backlog"), false);
    assert!(matches!(&act, SyncAction::FetchTransitions { issue_key } if issue_key == "AB-1"));
    let ts = vec![transition("7", "Reopen", Some("new"))];
    let (st, act) = sync_step(st, SyncEvent::Transitions(Ok(ts)), false);
    assert!(matches!(act, SyncAction::FetchCurrentStatus { .. }));
    let (st, _) = sync_step(st, SyncEvent::CurrentStatus(Some(String::new())), false);
    let required = JiraError::ApiError { status: 400, message: "Resolution field is required".into() };
    let (_, act) = sync_step(st, SyncEvent::Transitioned(Err(required)), false);
    assert!(matches!(act, SyncAction::Finish));

    let m = linked(obj(vec![("done", s("31"))]), "");
    let (st, _) = sync_step(SyncState::Start, begin(m, "Done"), false);
    let (st, _) = sync_step(st, SyncEvent::CurrentStatus(Some("Done".into())), false);
    let (_, act) = sync_step(st, SyncEvent::Transitioned(Err(JiraError::RateLimited)), false);
    assert!(matches!(act, SyncAction::Fail(SyncFailure::Transition(JiraError::RateLimited))));

    let m = linked(obj(vec![]), "");
    let (st, _) = sync_step(SyncState::Start, begin(m, "Done"), false);
    let (_, act) = sync_step(st, SyncEvent::Transitions(Err(JiraError::NotConfigured)), false);
    assert!(matches!(act, SyncAction::Fail(SyncFailure::Lookup(JiraError::NotConfigured))));

    let m = linked(obj(vec![]), "");
    let (st, _) = sync_step(SyncState::Start, begin(m, "Done"), true);
    let (_, act) = sync_step(st, SyncEvent::Transitions(Ok(vec![])), true);
    assert!(matches!(act, SyncAction::Finish));
}

#[test]
fn sync_steps_unlinked() {
    let (_, act) = sync_step(SyncState::Start, begin(obj(vec![]), "Done"), false);
    assert!(matches!(act, SyncAction::Fail(SyncFailure::NotLinked)));
    let (_, act) = sync_step(SyncState::Start, begin(obj(vec![("jira", obj(vec![]))]), "Done"), false);
    assert!(matches!(act, SyncAction::Fail(SyncFailure::NoIssueKey)));
    let (_, act) = sync_step(SyncState::Start, begin(obj(vec![]), "Done"), true);
    assert!(matches!(act, SyncAction::Finish));
    let m = linked(obj(vec![]), "");
    let (_, act) = sync_step(SyncState::Start, begin(m, "Blocked"), false);
    assert!(matches!(act, SyncAction::Finish));
    let (_, act) = sync_step(SyncState::Done, SyncEvent::Transitioned(Ok(())), false);
    assert!(matches!(act, SyncAction::Finish));
}
