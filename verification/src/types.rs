//! Jira REST API and request/response types, as plain values.
use vstd::prelude::*;

use crate::auth::JiraAuth;
use crate::json::Json;
use crate::text::{to_lowercase, text_lowercase};

verus! {

/// A Jira project summary as returned by `/rest/api/3/project`.
#[derive(Debug, Clone, PartialEq, Eq)]
pub struct JiraProject {
    pub id: String,
    pub key: String,
    pub name: String,
    pub project_type_key: Option<String>,
}

/// A Jira issue as returned by `/rest/api/3/issue/{key}`.
#[derive(Debug)]
pub struct JiraIssue {
    pub id: String,
    pub key: String,
    pub self_url: String,
    pub fields: JiraIssueFields,
}

/// The `fields` object inside a Jira issue response.
#[derive(Debug)]
pub struct JiraIssueFields {
    pub summary: String,
    pub description: Option<Json>,
    pub status: Option<JiraStatus>,
    pub priority: Option<JiraPriority>,
    pub issuetype: Option<JiraIssueType>,
    pub assignee: Option<JiraUser>,
    pub reporter: Option<JiraUser>,
    pub created: Option<String>,
    pub updated: Option<String>,
    pub labels: Vec<String>,
    /// Catch-all for custom fields (e.g. acceptance criteria, story points).
    pub extra: Vec<(String, Json)>,
}

#[derive(Debug, Clone, PartialEq, Eq)]
pub struct JiraStatus {
    pub id: String,
    pub name: String,
    pub status_category: Option<JiraStatusCategory>,
}

#[derive(Debug, Clone, PartialEq, Eq)]
pub struct JiraStatusCategory {
    pub id: i64,
    pub key: String,
    pub name: String,
}

#[derive(Debug, Clone, PartialEq, Eq)]
pub struct JiraPriority {
    pub id: String,
    pub name: String,
}

#[derive(Debug, Clone, PartialEq, Eq)]
pub struct JiraIssueType {
    pub id: String,
    pub name: String,
    pub subtask: bool,
}

#[derive(Debug, Clone, PartialEq, Eq)]
pub struct JiraUser {
    pub account_id: String,
    pub display_name: String,
}

/// A Jira status transition.
#[derive(Debug, Clone, PartialEq, Eq)]
pub struct JiraTransition {
    pub id: String,
    pub name: String,
    pub to: JiraStatus,
}

/// Search response from `/rest/api/3/search/jql`.
#[derive(Debug)]
pub struct JiraSearchResult {
    pub start_at: Option<i64>,
    pub max_results: Option<i64>,
    pub total: Option<i64>,
    pub issues: Vec<JiraIssue>,
    pub is_last: Option<bool>,
}

/// Request to connect a Jira instance to an organization.
#[derive(Debug, Clone, PartialEq, Eq)]
pub struct JiraConnectRequest {
    pub site_url: String,
    pub auth: JiraAuthPayload,
}

/// Auth payload sent from the frontend when connecting Jira.
#[derive(Debug, Clone, PartialEq, Eq)]
pub enum JiraAuthPayload {
    /// OAuth2 flow completed — frontend sends the authorization code.
    OAuth2 { code: String, redirect_uri: String },
    /// API token provided directly.
    ApiToken { email: String, token: String },
}

/// Request to import Jira issues into a project; ids are UUIDs as integers.
#[derive(Debug, Clone, PartialEq, Eq)]
pub struct JiraImportRequest {
    pub project_id: u128,
    pub status_id: u128,
    pub issue_keys: Vec<String>,
}

/// Summary of a Jira connection (returned to the frontend, no secrets).
#[derive(Debug, Clone, PartialEq, Eq)]
pub struct JiraConnectionInfo {
    pub connected: bool,
    pub site_url: Option<String>,
    pub auth_type: Option<String>,
    pub connected_at: Option<String>,
}

/// Request to search Jira issues.
#[derive(Debug, Clone, PartialEq, Eq)]
pub struct JiraSearchRequest {
    pub query: String,
    pub project_key: Option<String>,
    pub max_results: Option<u32>,
}

/// An Atlassian Cloud site accessible via OAuth token.
#[derive(Debug, Clone, PartialEq, Eq)]
pub struct AtlassianSite {
    pub id: String,
    pub url: String,
    pub name: String,
}

/// Response from the `/v1/jira/oauth/authorize` endpoint.
#[derive(Debug, Clone, PartialEq, Eq)]
pub struct JiraOAuthAuthorizeResponse {
    pub authorize_url: String,
}

/// A single Jira issue comment.
#[derive(Debug)]
pub struct JiraComment {
    pub id: String,
    pub author: Option<JiraUser>,
    /// ADF document body (Atlassian Document Format).
    pub body: Option<Json>,
    pub created: Option<String>,
    pub updated: Option<String>,
}

/// Paginated response from the Jira comments endpoint.
#[derive(Debug)]
pub struct JiraCommentResponse {
    pub comments: Vec<JiraComment>,
    pub total: Option<i64>,
    pub max_results: Option<i64>,
    pub start_at: Option<i64>,
}

/// A comment with markdown body (returned to the frontend).
#[derive(Debug, Clone, PartialEq, Eq)]
pub struct JiraCommentView {
    pub id: String,
    pub author_name: String,
    pub body_markdown: String,
    pub created: Option<String>,
}

/// A board status → Jira category mapping.
#[derive(Debug, Clone, PartialEq, Eq)]
pub struct JiraStatusMapping {
    pub vk_status_name: String,
    pub jira_category_key: String,
}

/// Request to upsert a status mapping.
#[derive(Debug, Clone, PartialEq, Eq)]
pub struct JiraStatusMappingRequest {
    pub vk_status_name: String,
    pub jira_category_key: String,
}

/// Request to delete a status mapping.
#[derive(Debug, Clone, PartialEq, Eq)]
pub struct JiraStatusMappingDeleteRequest {
    pub vk_status_name: String,
}

/// A Jira status with its category, for the mapping dropdown.
#[derive(Debug, Clone, PartialEq, Eq)]
pub struct JiraStatusView {
    pub name: String,
    pub category_key: String,
    pub category_name: String,
}

/// A stored status mapping row.
#[derive(Debug, Clone, PartialEq, Eq)]
pub struct StatusMappingRow {
    pub vk_status_name: String,
    pub jira_category_key: String,
}

/// The credentials that an auth payload carries when it is an API token.
pub fn api_token_auth(payload: &JiraAuthPayload) -> (r: Option<JiraAuth>)
    ensures
        match payload {
            JiraAuthPayload::ApiToken { email, token } => r matches Some(
                JiraAuth::ApiToken { email: e, token: t },
            ) && e@ == email@ && t@ == token@,
            JiraAuthPayload::OAuth2 { .. } => r is None,
        },
{
    match payload {
        JiraAuthPayload::ApiToken { email, token } => Some(
            JiraAuth::ApiToken { email: email.clone(), token: token.clone() },
        ),
        JiraAuthPayload::OAuth2 { .. } => None,
    }
}

/// The field ids of a Jira instance by lower-cased field name, from its
/// field definitions (id, name), in order; a later name replaces an earlier
/// one when they are collected into a map.
pub fn field_id_entries(fields: &Vec<(String, String)>) -> (r: Vec<(String, String)>)
    ensures
        r@.len() == fields@.len(),
        forall|i: int|
            0 <= i < fields@.len() ==> (#[trigger] r@[i]).0@ == text_lowercase(fields@[i].1@)
                && r@[i].1@ == fields@[i].0@,
{
    let mut r: Vec<(String, String)> = Vec::new();
    let mut i: usize = 0;
    while i < fields.len()
        invariant
            i <= fields.len(),
            r@.len() == i,
            forall|j: int|
                0 <= j < i ==> (#[trigger] r@[j]).0@ == text_lowercase(fields@[j].1@) && r@[j].1@
                    == fields@[j].0@,
        decreases fields.len() - i,
    {
        let name = to_lowercase(fields[i].1.as_str());
        r.push((name, fields[i].0.clone()));
        i += 1;
    }
    r
}

} // verus!
