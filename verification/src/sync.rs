//! Writing a board status change back to Jira: the plan made from an issue's
//! Jira metadata and the status mappings, and the metadata recorded after a
//! conflict or a successful transition.
use vstd::prelude::*;

use crate::json::{first_key, get, json_get, opt_str, str_or_empty, Json};
use crate::metadata::{
    jira_fields_set, last_index_of, lemma_insert_all_lookup, linked_issue_key,
    set_jira_fields,
};
use crate::error::{contains_seq, JiraError};
use crate::status::{
    cached_transition, cached_transition_id, conflicting, find_transition, first_transition,
    resolve_sync_category, resolve_writeback_category, status_conflict, sync_category,
    writeback_category,
};
use crate::text::owned;
use crate::types::{JiraTransition, StatusMappingRow};

verus! {

broadcast use vstd::string::group_string_axioms;

/// What a status sync does first.
#[derive(Debug)]
pub enum SyncPlan {
    /// The issue's metadata has no `jira` section.
    NotLinked,
    /// The `jira` section has no issue key.
    NoIssueKey,
    /// No Jira category is mapped to the board status.
    NoMapping { issue_key: String },
    /// A transition into the category is cached in the metadata.
    Cached { issue_key: String, category: String, transition_id: String },
    /// The issue's transitions must be fetched to find one into the category.
    Lookup { issue_key: String, category: String },
}

// ---------------------------------------------------------------------------
// Specification
// ---------------------------------------------------------------------------

/// The category a sync targets: write-backs of the shared server and manual
/// syncs of the local server recognise different default spellings.
pub open spec fn target_category(
    mappings: Seq<StatusMappingRow>,
    status_name: Seq<char>,
    writeback: bool,
) -> Option<Seq<char>> {
    if writeback {
        writeback_category(mappings, status_name)
    } else {
        sync_category(mappings, status_name)
    }
}

/// The plan of a status sync.
pub open spec fn sync_plan_ok(
    metadata: Json,
    status_name: Seq<char>,
    mappings: Seq<StatusMappingRow>,
    writeback: bool,
    r: SyncPlan,
) -> bool {
    match json_get(metadata, "jira"@) {
        None => r is NotLinked,
        Some(jm) => match opt_str(json_get(jm, "issue_key"@)) {
            None => r is NoIssueKey,
            Some(key) => match target_category(mappings, status_name, writeback) {
                None => r matches SyncPlan::NoMapping { issue_key } && issue_key@ == key,
                Some(c) => match cached_transition(jm, c) {
                    Some(id) => r matches SyncPlan::Cached { issue_key, category, transition_id }
                        && issue_key@ == key && category@ == c && transition_id@ == id,
                    None => r matches SyncPlan::Lookup { issue_key, category } && issue_key@ == key
                        && category@ == c,
                },
            },
        },
    }
}

/// The Jira status recorded in the metadata (`jira.jira_status`), or empty.
pub open spec fn recorded_status(metadata: Json) -> Seq<char> {
    match json_get(metadata, "jira"@) {
        Some(jm) => str_or_empty(opt_str(json_get(jm, "jira_status"@))),
        None => Seq::empty(),
    }
}

/// A metadata field holding a text.
pub open spec fn text_field(key: Seq<char>, value: Seq<char>, f: (String, Json)) -> bool {
    &&& f.0@ == key
    &&& f.1 matches Json::Text(t)
    &&& t@ == value
}

// ---------------------------------------------------------------------------
// Implementation
// ---------------------------------------------------------------------------

/// The plan of a status sync for an issue with this metadata whose board
/// status is now `status_name`.
pub fn plan_status_sync(
    metadata: &Json,
    status_name: &str,
    mappings: &Vec<StatusMappingRow>,
    writeback: bool,
) -> (r: SyncPlan)
    ensures
        sync_plan_ok(*metadata, status_name@, mappings@, writeback, r),
{
    let jm = match get(metadata, "jira") {
        None => return SyncPlan::NotLinked,
        Some(jm) => jm,
    };
    let issue_key = match get(jm, "issue_key") {
        Some(Json::Text(s)) => owned(s.as_str()),
        _ => return SyncPlan::NoIssueKey,
    };
    let category = if writeback {
        resolve_writeback_category(mappings, status_name)
    } else {
        resolve_sync_category(mappings, status_name)
    };
    let category = match category {
        None => return SyncPlan::NoMapping { issue_key },
        Some(c) => c,
    };
    match cached_transition_id(jm, category.as_str()) {
        Some(transition_id) => SyncPlan::Cached { issue_key, category, transition_id },
        None => SyncPlan::Lookup { issue_key, category },
    }
}

/// The Jira status recorded in the metadata, or empty.
pub fn recorded_jira_status(metadata: &Json) -> (r: String)
    ensures
        r@ == recorded_status(*metadata),
{
    match get(metadata, "jira") {
        Some(jm) => match get(jm, "jira_status") {
            Some(Json::Text(s)) => owned(s.as_str()),
            _ => String::new(),
        },
        None => String::new(),
    }
}

/// A text field of the metadata.
fn text_field_of(key: &str, value: &str) -> (r: (String, Json))
    ensures
        text_field(key@, value@, r),
{
    (owned(key), Json::Text(owned(value)))
}

/// The metadata after a conflict: Jira's current status is recorded and no
/// transition is made.
pub fn conflict_metadata(metadata: Json, current_status: &str) -> (r: Json)
    ensures
        exists|fields: Seq<(String, Json)>|
            fields.len() == 1 && text_field("jira_status"@, current_status@, #[trigger] fields[0])
                && jira_fields_set(metadata, fields, r),
{
    let mut fields: Vec<(String, Json)> = Vec::new();
    fields.push(text_field_of("jira_status", current_status));
    let ghost f = fields@;
    let r = set_jira_fields(metadata, fields);
    assert(text_field("jira_status"@, current_status@, f[0]));
    r
}

/// The metadata after a successful transition: the time of the sync and the
/// board status are recorded.
pub fn synced_metadata(metadata: Json, synced_at: &str, status_name: &str) -> (r: Json)
    ensures
        exists|fields: Seq<(String, Json)>|
            fields.len() == 2 && text_field("last_synced_at"@, synced_at@, #[trigger] fields[0])
                && text_field("jira_status"@, status_name@, fields[1]) && jira_fields_set(
                metadata,
                fields,
                r,
            ),
{
    let mut fields: Vec<(String, Json)> = Vec::new();
    fields.push(text_field_of("last_synced_at", synced_at));
    fields.push(text_field_of("jira_status", status_name));
    let ghost f = fields@;
    let r = set_jira_fields(metadata, fields);
    assert(text_field("last_synced_at"@, synced_at@, f[0]));
    r
}

// ---------------------------------------------------------------------------
// The sync as steps
// ---------------------------------------------------------------------------

/// Where a status sync stands between its calls to Jira.
#[derive(Debug)]
pub enum SyncState {
    /// Nothing is known yet.
    Start,
    /// The issue's transitions are awaited, to find one into `category`.
    AwaitTransitions { issue_key: String, category: String, recorded: String },
    /// Jira's current status of the issue is awaited, to detect a conflict.
    AwaitCurrent { issue_key: String, transition_id: String, recorded: String },
    /// The outcome of the transition is awaited.
    AwaitTransition { issue_key: String, transition_id: String },
    /// The sync is over.
    Done,
}

/// What the caller of a status sync hands back.
#[derive(Debug)]
pub enum SyncEvent {
    /// The sync begins for an issue with this metadata, now in board status
    /// `status_name`, under these custom mappings.
    Begin { metadata: Json, status_name: String, mappings: Vec<StatusMappingRow> },
    /// The issue's transitions, or the error of fetching them.
    Transitions(Result<Vec<JiraTransition>, JiraError>),
    /// Jira's current status name of the issue (empty when it has none), or
    /// nothing when the issue could not be fetched.
    CurrentStatus(Option<String>),
    /// The outcome of the transition request.
    Transitioned(Result<(), JiraError>),
}

/// Why a manual status sync fails.
#[derive(Debug)]
pub enum SyncFailure {
    /// The issue's metadata has no `jira` section.
    NotLinked,
    /// The `jira` section has no issue key.
    NoIssueKey,
    /// The issue's transitions could not be fetched.
    Lookup(JiraError),
    /// The transition failed for another reason than required fields.
    Transition(JiraError),
}

/// What the caller of a status sync does next.
#[derive(Debug)]
pub enum SyncAction {
    /// Stop: there is nothing (more) to do.
    Finish,
    /// Stop with an error (a manual sync; a write-back stops quietly).
    Fail(SyncFailure),
    /// Fetch the issue's transitions.
    FetchTransitions { issue_key: String },
    /// Fetch the issue's current status.
    FetchCurrentStatus { issue_key: String },
    /// Record Jira's current status in the metadata and stop: Jira's status
    /// changed outside the board, so no transition is made.
    RecordConflict { current_status: String },
    /// Request the transition.
    Transition { issue_key: String, transition_id: String },
    /// Record the sync time and the board status in the metadata and stop.
    RecordSynced,
}

/// The state and action after a sync begins.
pub open spec fn begin_ok(
    metadata: Json,
    status_name: Seq<char>,
    mappings: Seq<StatusMappingRow>,
    writeback: bool,
    r: (SyncState, SyncAction),
) -> bool {
    match json_get(metadata, "jira"@) {
        None => r.0 is Done && if writeback {
            r.1 is Finish
        } else {
            r.1 matches SyncAction::Fail(SyncFailure::NotLinked)
        },
        Some(jm) => match opt_str(json_get(jm, "issue_key"@)) {
            None => r.0 is Done && if writeback {
                r.1 is Finish
            } else {
                r.1 matches SyncAction::Fail(SyncFailure::NoIssueKey)
            },
            Some(key) => match target_category(mappings, status_name, writeback) {
                None => r.0 is Done && r.1 is Finish,
                Some(c) => match cached_transition(jm, c) {
                    Some(id) => {
                        &&& r.0 matches SyncState::AwaitCurrent {
                            issue_key,
                            transition_id,
                            recorded,
                        }
                        &&& issue_key@ == key
                        &&& transition_id@ == id
                        &&& recorded@ == recorded_status(metadata)
                        &&& r.1 matches SyncAction::FetchCurrentStatus { issue_key: k }
                        &&& k@ == key
                    },
                    None => {
                        &&& r.0 matches SyncState::AwaitTransitions {
                            issue_key,
                            category,
                            recorded,
                        }
                        &&& issue_key@ == key
                        &&& category@ == c
                        &&& recorded@ == recorded_status(metadata)
                        &&& r.1 matches SyncAction::FetchTransitions { issue_key: k }
                        &&& k@ == key
                    },
                },
            },
        },
    }
}

/// The step of a status sync: from where it stands and what came back, to
/// where it stands next and what to do. A conflict records Jira's status and
/// skips the transition; a rejection for required fields stops without
/// recording anything; other failures stop, with an error for a manual sync.
pub open spec fn sync_step_ok(
    state: SyncState,
    event: SyncEvent,
    writeback: bool,
    r: (SyncState, SyncAction),
) -> bool {
    match (state, event) {
        (SyncState::Start, SyncEvent::Begin { metadata, status_name, mappings }) => begin_ok(
            metadata,
            status_name@,
            mappings@,
            writeback,
            r,
        ),
        (
            SyncState::AwaitTransitions { issue_key, category, recorded },
            SyncEvent::Transitions(Ok(ts)),
        ) => match first_transition(ts@, category@) {
            Some(i) => {
                &&& r.0 matches SyncState::AwaitCurrent { issue_key: k, transition_id, recorded: c }
                &&& k@ == issue_key@
                &&& transition_id@ == ts@[i].id@
                &&& c@ == recorded@
                &&& r.1 matches SyncAction::FetchCurrentStatus { issue_key: k2 }
                &&& k2@ == issue_key@
            },
            None => r.0 is Done && r.1 is Finish,
        },
        (SyncState::AwaitTransitions { .. }, SyncEvent::Transitions(Err(e))) => r.0 is Done && if writeback {
            r.1 is Finish
        } else {
            r.1 == SyncAction::Fail(SyncFailure::Lookup(e))
        },
        (
            SyncState::AwaitCurrent { issue_key, transition_id, recorded },
            SyncEvent::CurrentStatus(current),
        ) => match current {
            Some(cur) if conflicting(recorded@, cur@) => {
                &&& r.0 is Done
                &&& r.1 matches SyncAction::RecordConflict { current_status }
                &&& current_status@ == cur@
            },
            _ => {
                &&& r.0 matches SyncState::AwaitTransition { issue_key: k, transition_id: t }
                &&& k@ == issue_key@
                &&& t@ == transition_id@
                &&& r.1 matches SyncAction::Transition { issue_key: k2, transition_id: t2 }
                &&& k2@ == issue_key@
                &&& t2@ == transition_id@
            },
        },
        (SyncState::AwaitTransition { .. }, SyncEvent::Transitioned(Ok(()))) => r.0 is Done
            && r.1 is RecordSynced,
        (SyncState::AwaitTransition { .. }, SyncEvent::Transitioned(Err(e))) => r.0 is Done && if (
        e matches JiraError::ApiError { status, message } && status == 400 && contains_seq(
            message@,
            "field is required"@,
        )) || writeback {
            r.1 is Finish
        } else {
            r.1 == SyncAction::Fail(SyncFailure::Transition(e))
        },
        _ => r.0 is Done && r.1 is Finish,
    }
}

/// The first step of a sync.
fn begin_sync(metadata: &Json, status_name: &str, mappings: &Vec<StatusMappingRow>, writeback: bool) -> (r: (
    SyncState,
    SyncAction,
))
    ensures
        begin_ok(*metadata, status_name@, mappings@, writeback, r),
{
    let recorded = recorded_jira_status(metadata);
    match plan_status_sync(metadata, status_name, mappings, writeback) {
        SyncPlan::NotLinked => if writeback {
            (SyncState::Done, SyncAction::Finish)
        } else {
            (SyncState::Done, SyncAction::Fail(SyncFailure::NotLinked))
        },
        SyncPlan::NoIssueKey => if writeback {
            (SyncState::Done, SyncAction::Finish)
        } else {
            (SyncState::Done, SyncAction::Fail(SyncFailure::NoIssueKey))
        },
        SyncPlan::NoMapping { .. } => (SyncState::Done, SyncAction::Finish),
        SyncPlan::Cached { issue_key, transition_id, .. } => {
            let k = issue_key.clone();
            (
                SyncState::AwaitCurrent { issue_key, transition_id, recorded },
                SyncAction::FetchCurrentStatus { issue_key: k },
            )
        },
        SyncPlan::Lookup { issue_key, category } => {
            let k = issue_key.clone();
            (
                SyncState::AwaitTransitions { issue_key, category, recorded },
                SyncAction::FetchTransitions { issue_key: k },
            )
        },
    }
}

/// One step of a status sync; `writeback` is set for the automatic write-back
/// of the shared server and clear for a manual sync.
pub fn sync_step(state: SyncState, event: SyncEvent, writeback: bool) -> (r: (SyncState, SyncAction))
    ensures
        sync_step_ok(state, event, writeback, r),
{
    match (state, event) {
        (SyncState::Start, SyncEvent::Begin { metadata, status_name, mappings }) => begin_sync(
            &metadata,
            status_name.as_str(),
            &mappings,
            writeback,
        ),
        (
            SyncState::AwaitTransitions { issue_key, category, recorded },
            SyncEvent::Transitions(Ok(ts)),
        ) => match find_transition(&ts, category.as_str()) {
            Some(t) => {
                let id = t.id.clone();
                let k = issue_key.clone();
                (
                    SyncState::AwaitCurrent { issue_key, transition_id: id, recorded },
                    SyncAction::FetchCurrentStatus { issue_key: k },
                )
            },
            None => (SyncState::Done, SyncAction::Finish),
        },
        (SyncState::AwaitTransitions { .. }, SyncEvent::Transitions(Err(e))) => if writeback {
            (SyncState::Done, SyncAction::Finish)
        } else {
            (SyncState::Done, SyncAction::Fail(SyncFailure::Lookup(e)))
        },
        (
            SyncState::AwaitCurrent { issue_key, transition_id, recorded },
            SyncEvent::CurrentStatus(current),
        ) => {
            let conflict = match &current {
                Some(cur) => status_conflict(recorded.as_str(), cur.as_str()),
                None => false,
            };
            if conflict {
                match current {
                    Some(cur) => (SyncState::Done, SyncAction::RecordConflict { current_status: cur }),
                    None => (SyncState::Done, SyncAction::Finish),
                }
            } else {
                let k = issue_key.clone();
                let t = transition_id.clone();
                (
                    SyncState::AwaitTransition { issue_key, transition_id },
                    SyncAction::Transition { issue_key: k, transition_id: t },
                )
            }
        },
        (SyncState::AwaitTransition { .. }, SyncEvent::Transitioned(Ok(()))) => (
            SyncState::Done,
            SyncAction::RecordSynced,
        ),
        (SyncState::AwaitTransition { .. }, SyncEvent::Transitioned(Err(e))) => {
            if e.is_required_field_rejection() || writeback {
                (SyncState::Done, SyncAction::Finish)
            } else {
                (SyncState::Done, SyncAction::Fail(SyncFailure::Transition(e)))
            }
        },
        _ => (SyncState::Done, SyncAction::Finish),
    }
}

// ---------------------------------------------------------------------------
// Laws
// ---------------------------------------------------------------------------

/// Recording a status on linked metadata: the recorded status reads back as
/// the last status written, and the linked issue key is kept.
pub proof fn lemma_recorded_status_read_back(
    metadata: Json,
    fields: Seq<(String, Json)>,
    r: Json,
    status: Seq<char>,
)
    requires
        json_get(metadata, "jira"@) matches Some(Json::Object(_)),
        jira_fields_set(metadata, fields, r),
        fields.len() > 0,
        text_field("jira_status"@, status, fields.last()),
        forall|j: int| 0 <= j < fields.len() ==> (#[trigger] fields[j]).0@ != "issue_key"@,
    ensures
        recorded_status(r) == status,
        linked_issue_key(r) == linked_issue_key(metadata),
{
    let e = metadata->Object_0;
    let i = first_key(e@, "jira"@)->Some_0;
    let inner = e@[i].1->Object_0;
    let e2 = r->Object_0;
    let inner2 = e2@[i].1->Object_0;
    assert(first_key(e2@, "jira"@) == first_key(e@, "jira"@)) by {
        lemma_same_keys_first(e@, e2@, "jira"@);
    }
    assert(json_get(r, "jira"@) == Some(e2@[i].1));
    lemma_insert_all_lookup(inner@, fields, "jira_status"@);
    assert(fields[fields.len() - 1].0@ == "jira_status"@);
    assert(last_index_of(fields, "jira_status"@) == fields.len() - 1);
    lemma_insert_all_lookup(inner@, fields, "issue_key"@);
}

/// Entries with the same keys in the same order find a key at the same place.
proof fn lemma_same_keys_first(a: Seq<(String, Json)>, b: Seq<(String, Json)>, key: Seq<char>)
    requires
        a.len() == b.len(),
        forall|k: int| 0 <= k < a.len() ==> (#[trigger] a[k]).0@ == b[k].0@,
    ensures
        first_key(a, key) == first_key(b, key),
    decreases a.len(),
{
    if a.len() > 0 {
        assert(a[0].0@ == b[0].0@);
        lemma_same_keys_first(a.drop_first(), b.drop_first(), key);
    }
}

} // verus!
