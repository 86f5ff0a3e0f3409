use jira_client::board::{
    project_color, project_identifier, IssueRelationshipType, JiraRepository,
    LocalProjectStatus, TagRepository, TaskStatus,
};
use jira_client::issues::{
    parse_priority, priority_patch, priority_to_str, split_patch, IssueSortField, LocalIssue,
    SearchIssuesRequest, SortDirection, SqlValue, UpdateIssueRequest, ISSUE_SELECT, ISSUE_UPDATE,
};
use jira_client::status::IssuePriority;

fn request() -> SearchIssuesRequest {
    SearchIssuesRequest {
        project_id: 7,
        status_id: None,
        status_ids: None,
        priority: None,
        parent_issue_id: None,
        search: None,
        simple_id: None,
        sort_field: None,
        sort_direction: None,
        limit: None,
        offset: None,
    }
}

fn bind_texts(binds: &[SqlValue]) -> Vec<String> {
    binds
        .iter()
        .map(|b| match b {
            SqlValue::Uuid(u) => format!("uuid:{u}"),
            SqlValue::Text(t) => format!("text:{t}"),
            SqlValue::Bool(b) => format!("bool:{b}"),
            SqlValue::RealBits(bits) => format!("real:{}", f64::from_bits(*bits)),
            SqlValue::Null => "null".to_string(),
        })
        .collect()
}

#[test]
fn search_with_only_project() {
    let q = LocalIssue::search_query(&request());
    assert_eq!(q.count_sql, "SELECT COUNT(*) as cnt FROM issues WHERE project_id = $1");
    assert_eq!(
        q.data_sql,
        format!("{ISSUE_SELECT} WHERE project_id = $1 ORDER BY sort_order ASC LIMIT 100 OFFSET 0")
    );
    assert_eq!(bind_texts(&q.binds), vec!["uuid:7"]);
    assert_eq!((q.limit, q.offset), (100, 0));
}

#[test]
fn search_with_every_filter_numbers_placeholders_in_bind_order() {
    let mut req = request();
    req.status_id = Some(1);
    req.status_ids = Some(vec![2, 3]);
    req.priority = Some(IssuePriority::High);
    req.parent_issue_id = Some(4);
    req.search = Some("bug".to_string());
    req.simple_id = Some("ABC-1".to_string());
    req.sort_field = Some(IssueSortField::Title);
    req.sort_direction = Some(SortDirection::Desc);
    req.limit = Some(10);
    req.offset = Some(20);
    let q = LocalIssue::search_query(&req);
    let where_sql = "project_id = $1 AND status_id = $2 AND status_id IN ($3, $4) AND priority = $5 AND parent_issue_id = $6 AND (title LIKE $7 OR description LIKE $7) AND simple_id = $8";
    assert_eq!(q.count_sql, format!("SELECT COUNT(*) as cnt FROM issues WHERE {where_sql}"));
    assert_eq!(
        q.data_sql,
        format!("{ISSUE_SELECT} WHERE {where_sql} ORDER BY title DESC LIMIT 10 OFFSET 20")
    );
    assert_eq!(
        bind_texts(&q.binds),
        vec!["uuid:7", "uuid:1", "uuid:2", "uuid:3", "text:high", "uuid:4", "text:%bug%", "text:ABC-1"]
    );
}

#[test]
fn search_with_empty_status_list_adds_nothing() {
    let mut req = request();
    req.status_ids = Some(vec![]);
    req.priority = Some(IssuePriority::Low);
    req.sort_field = Some(IssueSortField::SortOrder);
    let q = LocalIssue::search_query(&req);
    assert_eq!(
        q.count_sql,
        "SELECT COUNT(*) as cnt FROM issues WHERE project_id = $1 AND priority = $2"
    );
    assert_eq!(bind_texts(&q.binds), vec!["uuid:7", "text:low"]);
    assert!(q.data_sql.ends_with(" ORDER BY sort_order ASC LIMIT 100 OFFSET 0"));
}

#[test]
fn search_sort_columns() {
    for (field, column) in [
        (IssueSortField::Priority, "priority"),
        (IssueSortField::CreatedAt, "created_at"),
        (IssueSortField::UpdatedAt, "updated_at"),
    ] {
        let mut req = request();
        req.sort_field = Some(field);
        req.sort_direction = Some(SortDirection::Asc);
        let q = LocalIssue::search_query(&req);
        assert!(q.data_sql.ends_with(&format!(" ORDER BY {column} ASC LIMIT 100 OFFSET 0")));
    }
}

#[test]
fn issue_statements() {
    assert_eq!(
        LocalIssue::by_project_sql(),
        format!("{ISSUE_SELECT} WHERE project_id = $1 ORDER BY sort_order ASC, created_at ASC")
    );
    assert_eq!(LocalIssue::by_id_sql(), format!("{ISSUE_SELECT} WHERE id = $1"));
    assert!(ISSUE_SELECT.starts_with("SELECT\n    id, project_id, issue_number"));
    assert!(ISSUE_SELECT.ends_with("\nFROM issues"));
}

#[test]
fn simple_ids() {
    assert_eq!(LocalIssue::simple_id(Some("my project"), 12), "MYP-12");
    assert_eq!(LocalIssue::simple_id(Some("a-b c!d"), 3), "ABC-3");
    assert_eq!(LocalIssue::simple_id(Some("x"), 1), "X-1");
    assert_eq!(LocalIssue::simple_id(Some("--"), 5), "-5");
    assert_eq!(LocalIssue::simple_id(None, 7), "PRJ-7");
    assert_eq!(LocalIssue::simple_id(Some("über"), 2), "ÜBE-2");
    assert_eq!(LocalIssue::simple_id(Some("ab"), -4), "AB--4");
}

#[test]
fn priority_texts_round_trip() {
    for p in [
        IssuePriority::Urgent,
        IssuePriority::High,
        IssuePriority::Medium,
        IssuePriority::Low,
    ] {
        assert_eq!(parse_priority(Some(priority_to_str(&p))), Some(p));
    }
    assert_eq!(priority_to_str(&IssuePriority::Urgent), "urgent");
    assert_eq!(parse_priority(Some("High")), None);
    assert_eq!(parse_priority(Some("")), None);
    assert_eq!(parse_priority(None), None);
}

#[test]
fn update_fields_split_into_value_and_null_flag() {
    assert_eq!(split_patch(Some(Some(5))), (Some(5), false));
    assert_eq!(split_patch(Some(None::<i32>)), (None, true));
    assert_eq!(split_patch(None::<Option<i32>>), (None, false));
    assert_eq!(priority_patch(Some(Some(IssuePriority::Medium))), (Some("medium"), false));
    assert_eq!(priority_patch(Some(None)), (None, true));
    assert_eq!(priority_patch(None), (None, false));
}

#[test]
fn task_status_texts() {
    let all = [
        (TaskStatus::Todo, "todo"),
        (TaskStatus::InProgress, "inprogress"),
        (TaskStatus::InReview, "inreview"),
        (TaskStatus::Done, "done"),
        (TaskStatus::Cancelled, "cancelled"),
    ];
    for (s, t) in all {
        assert_eq!(s.as_str(), t);
        assert_eq!(s.to_string(), t);
        assert_eq!(TaskStatus::parse(t), Some(s));
    }
    assert_eq!(TaskStatus::parse("Todo"), None);
    assert_eq!(TaskStatus::parse("in_progress"), None);
    assert_eq!(TaskStatus::default(), TaskStatus::Todo);
    assert_eq!(TaskStatus::stored_text(None), "todo");
    assert_eq!(TaskStatus::stored_text(Some(TaskStatus::Done)), "done");
}

#[test]
fn relationship_type_texts() {
    let all = [
        (IssueRelationshipType::Blocking, "blocking"),
        (IssueRelationshipType::Related, "related"),
        (IssueRelationshipType::HasDuplicate, "has_duplicate"),
    ];
    for (r, t) in all {
        assert_eq!(r.as_str(), t);
        assert_eq!(r.to_string(), t);
        assert_eq!(IssueRelationshipType::parse(t), Some(r));
    }
    assert_eq!(IssueRelationshipType::parse("HasDuplicate"), None);
}

#[test]
fn defaults_of_new_projects() {
    assert_eq!(
        LocalProjectStatus::defaults(),
        vec![
            ("Todo", "#6b7280", 0),
            ("In Progress", "#3b82f6", 1),
            ("In Review", "#f59e0b", 2),
            ("Done", "#22c55e", 3),
        ]
    );
    assert_eq!(
        TagRepository::default_tags(),
        vec![
            ("bug", "355 65% 53%"),
            ("feature", "124 82% 30%"),
            ("documentation", "205 100% 40%"),
            ("enhancement", "181 72% 78%"),
        ]
    );
    assert_eq!(TagRepository::label_color(), "210 10% 58%");
    let _repo = JiraRepository;
}

#[test]
fn local_project_identifier_and_color() {
    assert_eq!(project_identifier("web app"), "WEB");
    assert_eq!(project_identifier("a b"), "A B");
    assert_eq!(project_identifier("x"), "X");
    assert_eq!(project_identifier(""), "");
    assert_eq!(project_identifier("ßeta"), "SSET");
    assert_eq!(project_color(None), "#3b82f6");
    assert_eq!(project_color(Some("#000000")), "#000000");
}

#[test]
fn update_binds_give_value_and_clear_flag_per_field() {
    let req = UpdateIssueRequest {
        status_id: Some(5),
        title: None,
        description: Some(None),
        priority: Some(Some(IssuePriority::Urgent)),
        start_date: Some(Some("2024-01-01".to_string())),
        target_date: None,
        completed_at: Some(None),
        sort_order: Some(1.5f64.to_bits()),
        parent_issue_id: Some(Some(9)),
        parent_issue_sort_order: Some(None),
        extension_metadata: Some("{}".to_string()),
    };
    assert_eq!(
        bind_texts(&LocalIssue::update_binds(1, &req)),
        vec![
            "uuid:1", "uuid:5", "null", "null", "bool:true", "text:urgent", "bool:false",
            "text:2024-01-01", "bool:false", "null", "bool:false", "null", "bool:true",
            "real:1.5", "uuid:9", "bool:false", "null", "bool:true", "text:{}",
        ]
    );
    assert!(ISSUE_UPDATE.starts_with("UPDATE issues SET\n                status_id = COALESCE($2, status_id),"));
    assert!(ISSUE_UPDATE.ends_with("updated_at = datetime('now', 'subsec')\n            WHERE id = $1"));
    assert_eq!(ISSUE_UPDATE.matches('$').count(), 26);
}
