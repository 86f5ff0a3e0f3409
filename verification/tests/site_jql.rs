use jira_client::jql::{
    add_comment_path, build_search_jql, comments_path, effective_max_results, escape_double_quotes,
    is_issue_key, issue_path, search_path, transitions_path,
};
use jira_client::site::{
    api_url, client_site_url, issue_browse_url, jira_project_key, normalize_site_url,
    validate_jira_site_url,
};

#[test]
fn issue_keys_are_upper_letters_dash_digits() {
    assert!(is_issue_key("DEV-170227"));
    assert!(is_issue_key("PROJ-1"));
    assert!(!is_issue_key("proj-1"));
    assert!(!is_issue_key("PROJ-"));
    assert!(!is_issue_key("-1"));
    assert!(!is_issue_key("PROJ1"));
    assert!(!is_issue_key("AB-12-3"));
    assert!(!is_issue_key("AB-1x"));
    assert!(!is_issue_key(""));
}

#[test]
fn search_jql_text_query_scoped_to_project() {
    assert_eq!(
        build_search_jql("  login bug ", Some("PROJ")),
        "project = \"PROJ\" AND text ~ \"login bug\" ORDER BY updated DESC"
    );
}

#[test]
fn search_jql_issue_key_becomes_key_lookup() {
    assert_eq!(build_search_jql(" DEV-12 ", Some("PROJ")), "key = \"DEV-12\"");
}

#[test]
fn search_jql_raw_jql_passes_through() {
    assert_eq!(build_search_jql(" status = Done ", None), "status = Done");
    assert_eq!(
        build_search_jql("project X ORDER BY created", None),
        "project X ORDER BY created"
    );
}

#[test]
fn search_jql_escapes_quotes_and_ignores_bad_project_key() {
    assert_eq!(
        build_search_jql("say \"hi\"", Some("BAD KEY")),
        "text ~ \"say \\\"hi\\\"\" ORDER BY updated DESC"
    );
    assert_eq!(
        build_search_jql("x", Some("MY_PROJ1")),
        "project = \"MY_PROJ1\" AND text ~ \"x\" ORDER BY updated DESC"
    );
}

#[test]
fn escape_quotes_only_touches_quotes() {
    let cs: Vec<char> = "a\"b\\c".chars().collect();
    assert_eq!(escape_double_quotes(&cs), "a\\\"b\\c");
}

#[test]
fn max_results_default_and_cap() {
    assert_eq!(effective_max_results(None), 20);
    assert_eq!(effective_max_results(Some(7)), 7);
    assert_eq!(effective_max_results(Some(50)), 50);
    assert_eq!(effective_max_results(Some(100)), 50);
}

#[test]
fn search_path_encodes_jql() {
    assert_eq!(
        search_path("key = \"A-1\"", 20),
        "search/jql?jql=key%20%3D%20%22A-1%22&maxResults=20&fields=summary,description,status,priority,issuetype,assignee,reporter,created,updated,labels"
    );
    assert_eq!(
        search_path("ü~", 5),
        "search/jql?jql=%C3%BC~&maxResults=5&fields=summary,description,status,priority,issuetype,assignee,reporter,created,updated,labels"
    );
}

#[test]
fn issue_paths() {
    assert_eq!(issue_path("A-1"), "issue/A-1");
    assert_eq!(transitions_path("A-1"), "issue/A-1/transitions");
    assert_eq!(
        comments_path("A-1"),
        "issue/A-1/comment?orderBy=-created&maxResults=50"
    );
    assert_eq!(add_comment_path("A-1"), "issue/A-1/comment");
}

#[test]
fn site_url_validation_accepts_atlassian_cloud() {
    assert_eq!(validate_jira_site_url("https://acme.atlassian.net"), Ok(()));
    assert_eq!(validate_jira_site_url("https://acme.atlassian.com/"), Ok(()));
    assert_eq!(
        validate_jira_site_url("https://ACME.Atlassian.NET:443/jira"),
        Ok(())
    );
}

#[test]
fn site_url_validation_errors() {
    assert_eq!(
        validate_jira_site_url("http://acme.atlassian.net"),
        Err("site_url must use HTTPS")
    );
    assert_eq!(
        validate_jira_site_url("https://"),
        Err("site_url must contain a hostname")
    );
    assert_eq!(
        validate_jira_site_url("https://evil.com"),
        Err("site_url must be an Atlassian Cloud domain (*.atlassian.net or *.atlassian.com)")
    );
    assert_eq!(
        validate_jira_site_url("https://atlassian.net.evil.com/x"),
        Err("site_url must be an Atlassian Cloud domain (*.atlassian.net or *.atlassian.com)")
    );
}

#[test]
fn site_urls_are_normalized() {
    assert_eq!(
        normalize_site_url("  https://a.atlassian.net/// "),
        "https://a.atlassian.net"
    );
    assert_eq!(client_site_url("https://x.atlassian.net/"), "https://x.atlassian.net");
    assert_eq!(
        api_url("https://x.atlassian.net", "//project"),
        "https://x.atlassian.net/rest/api/3/project"
    );
    assert_eq!(
        issue_browse_url("https://x.atlassian.net", "AB-3"),
        "https://x.atlassian.net/browse/AB-3"
    );
    assert_eq!(jira_project_key("PROJ-12"), "PROJ");
    assert_eq!(jira_project_key("NOKEY"), "NOKEY");
}

#[test]
fn site_host_ends_at_query_fragment_and_user_info() {
    let refused =
        Err("site_url must be an Atlassian Cloud domain (*.atlassian.net or *.atlassian.com)");
    assert_eq!(validate_jira_site_url("https://evil.example.com?.atlassian.net"), refused);
    assert_eq!(validate_jira_site_url("https://evil.example.com#.atlassian.net"), refused);
    assert_eq!(validate_jira_site_url("https://evil.example.com\\.atlassian.net"), refused);
    assert_eq!(validate_jira_site_url("https://acme.atlassian.net:pw@evil.com"), refused);
    assert_eq!(validate_jira_site_url("https://evil.com@acme.atlassian.net/x?y#z"), Ok(()));
    assert_eq!(validate_jira_site_url("https://acme.atlassian.net?x=1"), Ok(()));
    assert_eq!(
        validate_jira_site_url("https://?.atlassian.net"),
        Err("site_url must contain a hostname")
    );
}
