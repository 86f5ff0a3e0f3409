//! Mapping of board statuses and priorities onto Jira, and the choices made
//! when a status change is synced to Jira.
use vstd::prelude::*;

use crate::json::{get, json_get, opt_str, Json};
use crate::text::{
    ascii_lower, chars_lt, is_ascii_text, lemma_ascii_text_matches_lowercase,
    lemma_lowercase_of_ascii_case_match, chars_of, eq_ignore_ascii_case, lemma_chars_lt_irreflexive,
    lemma_chars_lt_total, lemma_chars_lt_transitive, owned, str_equal, str_less, to_lowercase,
    text_lowercase,
};
use crate::types::{JiraStatus, JiraStatusView, JiraTransition, StatusMappingRow};

verus! {

/// Issue priority on the board.
#[derive(Debug, Clone, Copy, PartialEq, Eq, Structural)]
pub enum IssuePriority {
    Urgent,
    High,
    Medium,
    Low,
}

// ---------------------------------------------------------------------------
// Specification
// ---------------------------------------------------------------------------

/// The board priority for a Jira priority name, compared lower-cased.
pub open spec fn priority_for_jira_name(name: Seq<char>) -> Option<IssuePriority> {
    let l = text_lowercase(name);
    if l == "highest"@ || l == "blocker"@ {
        Some(IssuePriority::Urgent)
    } else if l == "high"@ || l == "critical"@ {
        Some(IssuePriority::High)
    } else if l == "medium"@ {
        Some(IssuePriority::Medium)
    } else if l == "low"@ || l == "lowest"@ || l == "trivial"@ {
        Some(IssuePriority::Low)
    } else {
        None
    }
}

/// The default Jira status category for a board status name, compared
/// lower-cased; task status names (`inprogress`, `inreview`) included.
pub open spec fn default_category(name: Seq<char>) -> Option<Seq<char>> {
    let l = text_lowercase(name);
    if l == "done"@ || l == "cancelled"@ || l == "canceled"@ {
        Some("done"@)
    } else if l == "inprogress"@ || l == "in progress"@ || l == "in_progress"@ {
        Some("indeterminate"@)
    } else if l == "inreview"@ || l == "in review"@ || l == "in_review"@ {
        Some("indeterminate"@)
    } else if l == "todo"@ || l == "to do"@ || l == "backlog"@ {
        Some("new"@)
    } else {
        None
    }
}

/// The default Jira status category used when a status change is written back
/// from the shared server; the joined spellings are not recognised there.
pub open spec fn writeback_default_category(name: Seq<char>) -> Option<Seq<char>> {
    let l = text_lowercase(name);
    if l == "done"@ || l == "cancelled"@ || l == "canceled"@ {
        Some("done"@)
    } else if l == "in progress"@ || l == "in_progress"@ {
        Some("indeterminate"@)
    } else if l == "in review"@ || l == "in_review"@ {
        Some("indeterminate"@)
    } else if l == "to do"@ || l == "todo"@ || l == "backlog"@ {
        Some("new"@)
    } else {
        None
    }
}

/// The category of the first custom mapping whose status name equals `name`
/// ignoring ASCII case.
pub open spec fn custom_category(mappings: Seq<StatusMappingRow>, name: Seq<char>) -> Option<
    Seq<char>,
>
    decreases mappings.len(),
{
    if mappings.len() == 0 {
        None
    } else if eq_ignore_ascii_case(mappings[0].vk_status_name@, name) {
        Some(mappings[0].jira_category_key@)
    } else {
        custom_category(mappings.drop_first(), name)
    }
}

/// The target category for a status sync: a custom mapping first, then the
/// default mapping.
pub open spec fn sync_category(mappings: Seq<StatusMappingRow>, name: Seq<char>) -> Option<
    Seq<char>,
> {
    match custom_category(mappings, name) {
        Some(c) => Some(c),
        None => default_category(name),
    }
}

/// The target category for a write-back from the shared server.
pub open spec fn writeback_category(mappings: Seq<StatusMappingRow>, name: Seq<char>) -> Option<
    Seq<char>,
> {
    match custom_category(mappings, name) {
        Some(c) => Some(c),
        None => writeback_default_category(name),
    }
}

/// Whether a transition leads into the category `key`.
pub open spec fn leads_to(t: JiraTransition, key: Seq<char>) -> bool {
    t.to.status_category matches Some(cat) && cat.key@ == key
}

/// The index of the first transition that leads into the category.
pub open spec fn first_transition(transitions: Seq<JiraTransition>, key: Seq<char>) -> Option<int>
    decreases transitions.len(),
{
    if transitions.len() == 0 {
        None
    } else if leads_to(transitions[0], key) {
        Some(0)
    } else {
        match first_transition(transitions.drop_first(), key) {
            Some(i) => Some(i + 1),
            None => None,
        }
    }
}

/// A cached transition id: `jira.transitions.<category>` as a string.
pub open spec fn cached_transition(jira_meta: Json, category: Seq<char>) -> Option<Seq<char>> {
    match json_get(jira_meta, "transitions"@) {
        Some(t) => opt_str(json_get(t, category)),
        None => None,
    }
}

/// Jira's status changed outside the board: both statuses are known and they
/// differ.
pub open spec fn conflicting(cached: Seq<char>, current: Seq<char>) -> bool {
    cached.len() != 0 && current.len() != 0 && cached != current
}

// ---------------------------------------------------------------------------
// Implementation
// ---------------------------------------------------------------------------

/// Map a Jira priority name to a board priority.
pub fn map_jira_priority(name: &str) -> (r: Option<IssuePriority>)
    ensures
        r == priority_for_jira_name(name@),
{
    let lower = to_lowercase(name);
    let l = lower.as_str();
    if str_equal(l, "highest") || str_equal(l, "blocker") {
        Some(IssuePriority::Urgent)
    } else if str_equal(l, "high") || str_equal(l, "critical") {
        Some(IssuePriority::High)
    } else if str_equal(l, "medium") {
        Some(IssuePriority::Medium)
    } else if str_equal(l, "low") || str_equal(l, "lowest") || str_equal(l, "trivial") {
        Some(IssuePriority::Low)
    } else {
        None
    }
}

/// The default Jira status category for a board status name.
pub fn map_status_to_jira_category(status_name: &str) -> (r: Option<&'static str>)
    ensures
        match r {
            Some(c) => default_category(status_name@) == Some(c@),
            None => default_category(status_name@) is None,
        },
{
    let lower = to_lowercase(status_name);
    let l = lower.as_str();
    if str_equal(l, "done") || str_equal(l, "cancelled") || str_equal(l, "canceled") {
        Some("done")
    } else if str_equal(l, "inprogress") || str_equal(l, "in progress") || str_equal(
        l,
        "in_progress",
    ) {
        Some("indeterminate")
    } else if str_equal(l, "inreview") || str_equal(l, "in review") || str_equal(l, "in_review") {
        Some("indeterminate")
    } else if str_equal(l, "todo") || str_equal(l, "to do") || str_equal(l, "backlog") {
        Some("new")
    } else {
        None
    }
}

/// The default Jira status category for a write-back from the shared server.
pub fn writeback_status_category(status_name: &str) -> (r: Option<&'static str>)
    ensures
        match r {
            Some(c) => writeback_default_category(status_name@) == Some(c@),
            None => writeback_default_category(status_name@) is None,
        },
{
    let lower = to_lowercase(status_name);
    let l = lower.as_str();
    if str_equal(l, "done") || str_equal(l, "cancelled") || str_equal(l, "canceled") {
        Some("done")
    } else if str_equal(l, "in progress") || str_equal(l, "in_progress") {
        Some("indeterminate")
    } else if str_equal(l, "in review") || str_equal(l, "in_review") {
        Some("indeterminate")
    } else if str_equal(l, "to do") || str_equal(l, "todo") || str_equal(l, "backlog") {
        Some("new")
    } else {
        None
    }
}

/// `char::to_ascii_lowercase`.
pub fn to_ascii_lower(c: char) -> (r: char)
    ensures
        r == ascii_lower(c),
{
    if 'A' <= c && c <= 'Z' {
        ((c as u8) + 32) as char
    } else {
        c
    }
}

/// `str::eq_ignore_ascii_case`.
pub fn equal_ignoring_ascii_case(a: &str, b: &str) -> (r: bool)
    ensures
        r == eq_ignore_ascii_case(a@, b@),
{
    let ca = chars_of(a);
    let cb = chars_of(b);
    if ca.len() != cb.len() {
        return false;
    }
    let mut i: usize = 0;
    while i < ca.len()
        invariant
            i <= ca.len(),
            ca.len() == cb.len(),
            ca@ == a@,
            cb@ == b@,
            forall|k: int| 0 <= k < i ==> ascii_lower(#[trigger] ca@[k]) == ascii_lower(cb@[k]),
        decreases ca.len() - i,
    {
        if to_ascii_lower(ca[i]) != to_ascii_lower(cb[i]) {
            return false;
        }
        i += 1;
    }
    true
}

/// The category of the first custom mapping for the status name.
pub fn find_custom_mapping<'a>(mappings: &'a Vec<StatusMappingRow>, status_name: &str) -> (r:
    Option<&'a str>)
    ensures
        match r {
            Some(c) => custom_category(mappings@, status_name@) == Some(c@),
            None => custom_category(mappings@, status_name@) is None,
        },
{
    let mut i: usize = 0;
    assert(mappings@.subrange(0, mappings@.len() as int) =~= mappings@);
    while i < mappings.len()
        invariant
            i <= mappings.len(),
            custom_category(mappings@, status_name@) == custom_category(
                mappings@.subrange(i as int, mappings@.len() as int),
                status_name@,
            ),
        decreases mappings.len() - i,
    {
        let ghost rest = mappings@.subrange(i as int, mappings@.len() as int);
        assert(rest[0] == mappings@[i as int]);
        if equal_ignoring_ascii_case(mappings[i].vk_status_name.as_str(), status_name) {
            return Some(mappings[i].jira_category_key.as_str());
        }
        assert(rest.drop_first() =~= mappings@.subrange(i + 1, mappings@.len() as int));
        i += 1;
    }
    None
}

/// The target Jira category when a board status is synced: a custom mapping
/// takes precedence over the default mapping.
pub fn resolve_sync_category(mappings: &Vec<StatusMappingRow>, status_name: &str) -> (r: Option<
    String,
>)
    ensures
        match r {
            Some(c) => sync_category(mappings@, status_name@) == Some(c@),
            None => sync_category(mappings@, status_name@) is None,
        },
{
    match find_custom_mapping(mappings, status_name) {
        Some(c) => Some(owned(c)),
        None => match map_status_to_jira_category(status_name) {
            Some(c) => Some(owned(c)),
            None => None,
        },
    }
}

/// The target Jira category when the shared server writes a status back.
pub fn resolve_writeback_category(mappings: &Vec<StatusMappingRow>, status_name: &str) -> (r:
    Option<String>)
    ensures
        match r {
            Some(c) => writeback_category(mappings@, status_name@) == Some(c@),
            None => writeback_category(mappings@, status_name@) is None,
        },
{
    match find_custom_mapping(mappings, status_name) {
        Some(c) => Some(owned(c)),
        None => match writeback_status_category(status_name) {
            Some(c) => Some(owned(c)),
            None => None,
        },
    }
}

/// The first transition that leads into the target category.
pub fn find_transition<'a>(transitions: &'a Vec<JiraTransition>, category: &str) -> (r: Option<
    &'a JiraTransition,
>)
    ensures
        match r {
            Some(t) => first_transition(transitions@, category@) matches Some(i) && 0 <= i
                < transitions@.len() && transitions@[i] == *t,
            None => first_transition(transitions@, category@) is None,
        },
{
    let mut i: usize = 0;
    assert(transitions@.subrange(0, transitions@.len() as int) =~= transitions@);
    while i < transitions.len()
        invariant
            i <= transitions.len(),
            first_transition(transitions@, category@) == match first_transition(
                transitions@.subrange(i as int, transitions@.len() as int),
                category@,
            ) {
                Some(j) => Some(j + i),
                None => None,
            },
        decreases transitions.len() - i,
    {
        let ghost rest = transitions@.subrange(i as int, transitions@.len() as int);
        assert(rest[0] == transitions@[i as int]);
        let t = &transitions[i];
        let hit = match &t.to.status_category {
            Some(cat) => str_equal(cat.key.as_str(), category),
            None => false,
        };
        if hit {
            return Some(t);
        }
        assert(rest.drop_first() =~= transitions@.subrange(i + 1, transitions@.len() as int));
        i += 1;
    }
    None
}

/// The transition id cached in the issue's Jira metadata for the category.
pub fn cached_transition_id(jira_meta: &Json, category: &str) -> (r: Option<String>)
    ensures
        match r {
            Some(id) => cached_transition(*jira_meta, category@) == Some(id@),
            None => cached_transition(*jira_meta, category@) is None,
        },
{
    match get(jira_meta, "transitions") {
        Some(t) => match get(t, category) {
            Some(Json::Text(s)) => Some(owned(s.as_str())),
            _ => None,
        },
        None => None,
    }
}

/// Whether the cached Jira status and Jira's current status disagree.
pub fn status_conflict(cached: &str, current: &str) -> (r: bool)
    ensures
        r == conflicting(cached@, current@),
{
    !cached.is_empty() && !current.is_empty() && !str_equal(cached, current)
}

/// A custom mapping is found by board status name ignoring ASCII case: two
/// names that differ only in ASCII letter case find the same category.
pub proof fn lemma_custom_category_ignores_ascii_case(
    mappings: Seq<StatusMappingRow>,
    a: Seq<char>,
    b: Seq<char>,
)
    requires
        eq_ignore_ascii_case(a, b),
    ensures
        custom_category(mappings, a) == custom_category(mappings, b),
    decreases mappings.len(),
{
    if mappings.len() > 0 {
        let n = mappings[0].vk_status_name@;
        assert(eq_ignore_ascii_case(n, a) == eq_ignore_ascii_case(n, b)) by {
            if eq_ignore_ascii_case(n, a) {
                assert forall|i: int| 0 <= i < n.len() implies ascii_lower(#[trigger] n[i])
                    == ascii_lower(b[i]) by {
                    assert(ascii_lower(n[i]) == ascii_lower(a[i]));
                    assert(ascii_lower(a[i]) == ascii_lower(b[i]));
                }
            }
            if eq_ignore_ascii_case(n, b) {
                assert forall|i: int| 0 <= i < n.len() implies ascii_lower(#[trigger] n[i])
                    == ascii_lower(a[i]) by {
                    assert(ascii_lower(n[i]) == ascii_lower(b[i]));
                    assert(ascii_lower(a[i]) == ascii_lower(b[i]));
                }
            }
        }
        lemma_custom_category_ignores_ascii_case(mappings.drop_first(), a, b);
    }
}

/// Each literal is ASCII and lower case.
proof fn lemma_lower_literal(s: Seq<char>)
    requires
        forall|i: int| 0 <= i < s.len() ==> ('a' <= #[trigger] s[i] && s[i] <= 'z') || s[i] == ' '
            || s[i] == '_',
    ensures
        forall|i: int|
            0 <= i < s.len() ==> (#[trigger] s[i] as u32) < 128 && ascii_lower(s[i]) == s[i],
{
}

/// The category a board status is synced into when no custom mapping names
/// it, for names in any ASCII letter case: `done`, `cancelled` and `canceled`
/// go to `done`; `in progress`, `in_progress`, `in review` and `in_review` to
/// `indeterminate`; `todo`, `to do` and `backlog` to `new`. The joined task
/// names `inprogress` and `inreview` go to `indeterminate` from the board and
/// to none when written back from the shared server. Any other ASCII name
/// goes to none.
pub proof fn lemma_default_status_categories(mappings: Seq<StatusMappingRow>, name: Seq<char>)
    requires
        custom_category(mappings, name) is None,
    ensures
        eq_ignore_ascii_case(name, "done"@) || eq_ignore_ascii_case(name, "cancelled"@) || eq_ignore_ascii_case(name, "canceled"@) ==> sync_category(mappings, name) == Some("done"@)
            && writeback_category(mappings, name) == Some("done"@),
        eq_ignore_ascii_case(name, "in progress"@) || eq_ignore_ascii_case(name, "in_progress"@) || eq_ignore_ascii_case(name, "in review"@) || eq_ignore_ascii_case(name, "in_review"@) ==> sync_category(mappings, name) == Some("indeterminate"@)
            && writeback_category(mappings, name) == Some("indeterminate"@),
        eq_ignore_ascii_case(name, "inprogress"@) || eq_ignore_ascii_case(name, "inreview"@) ==> sync_category(mappings, name) == Some("indeterminate"@)
            && writeback_category(mappings, name) is None,
        eq_ignore_ascii_case(name, "todo"@) || eq_ignore_ascii_case(name, "to do"@) || eq_ignore_ascii_case(name, "backlog"@) ==> sync_category(mappings, name) == Some("new"@)
            && writeback_category(mappings, name) == Some("new"@),
        is_ascii_text(name) && !eq_ignore_ascii_case(name, "done"@)
            && !eq_ignore_ascii_case(name, "cancelled"@)
            && !eq_ignore_ascii_case(name, "canceled"@)
            && !eq_ignore_ascii_case(name, "inprogress"@)
            && !eq_ignore_ascii_case(name, "in progress"@)
            && !eq_ignore_ascii_case(name, "in_progress"@)
            && !eq_ignore_ascii_case(name, "inreview"@)
            && !eq_ignore_ascii_case(name, "in review"@)
            && !eq_ignore_ascii_case(name, "in_review"@)
            && !eq_ignore_ascii_case(name, "todo"@)
            && !eq_ignore_ascii_case(name, "to do"@)
            && !eq_ignore_ascii_case(name, "backlog"@) ==> sync_category(mappings, name) is None
            && writeback_category(mappings, name) is None,
{
    reveal_strlit("done");
    reveal_strlit("cancelled");
    reveal_strlit("canceled");
    reveal_strlit("inprogress");
    reveal_strlit("in progress");
    reveal_strlit("in_progress");
    reveal_strlit("inreview");
    reveal_strlit("in review");
    reveal_strlit("in_review");
    reveal_strlit("todo");
    reveal_strlit("to do");
    reveal_strlit("backlog");
    reveal_strlit("new");
    reveal_strlit("indeterminate");
    assert("done"@.len() == 4);
    assert("cancelled"@.len() == 9);
    assert("canceled"@.len() == 8);
    assert("inprogress"@.len() == 10);
    assert("in progress"@.len() == 11);
    assert("in_progress"@.len() == 11);
    assert("inreview"@.len() == 8);
    assert("in review"@.len() == 9);
    assert("in_review"@.len() == 9);
    assert("todo"@.len() == 4);
    assert("to do"@.len() == 5);
    assert("backlog"@.len() == 7);
    assert("new"@.len() == 3);
    assert("indeterminate"@.len() == 13);
    assert("todo"@[0] != "done"@[0]);
    assert("inreview"@[0] != "canceled"@[0]);
    assert("in review"@[0] != "cancelled"@[0]);
    assert("in_review"@[0] != "cancelled"@[0]);
    assert("inprogress"@[2] != "in progress"@[2]);
    assert("inprogress"@[2] != "in_progress"@[2]);
    assert("inreview"@[2] != "in review"@[2]);
    assert("inreview"@[2] != "in_review"@[2]);
    if eq_ignore_ascii_case(name, "done"@) {
        lemma_lower_literal("done"@);
        lemma_lowercase_of_ascii_case_match(name, "done"@);
    }
    if eq_ignore_ascii_case(name, "cancelled"@) {
        lemma_lower_literal("cancelled"@);
        lemma_lowercase_of_ascii_case_match(name, "cancelled"@);
    }
    if eq_ignore_ascii_case(name, "canceled"@) {
        lemma_lower_literal("canceled"@);
        lemma_lowercase_of_ascii_case_match(name, "canceled"@);
    }
    if eq_ignore_ascii_case(name, "inprogress"@) {
        lemma_lower_literal("inprogress"@);
        lemma_lowercase_of_ascii_case_match(name, "inprogress"@);
    }
    if eq_ignore_ascii_case(name, "in progress"@) {
        lemma_lower_literal("in progress"@);
        lemma_lowercase_of_ascii_case_match(name, "in progress"@);
    }
    if eq_ignore_ascii_case(name, "in_progress"@) {
        lemma_lower_literal("in_progress"@);
        lemma_lowercase_of_ascii_case_match(name, "in_progress"@);
    }
    if eq_ignore_ascii_case(name, "inreview"@) {
        lemma_lower_literal("inreview"@);
        lemma_lowercase_of_ascii_case_match(name, "inreview"@);
    }
    if eq_ignore_ascii_case(name, "in review"@) {
        lemma_lower_literal("in review"@);
        lemma_lowercase_of_ascii_case_match(name, "in review"@);
    }
    if eq_ignore_ascii_case(name, "in_review"@) {
        lemma_lower_literal("in_review"@);
        lemma_lowercase_of_ascii_case_match(name, "in_review"@);
    }
    if eq_ignore_ascii_case(name, "todo"@) {
        lemma_lower_literal("todo"@);
        lemma_lowercase_of_ascii_case_match(name, "todo"@);
    }
    if eq_ignore_ascii_case(name, "to do"@) {
        lemma_lower_literal("to do"@);
        lemma_lowercase_of_ascii_case_match(name, "to do"@);
    }
    if eq_ignore_ascii_case(name, "backlog"@) {
        lemma_lower_literal("backlog"@);
        lemma_lowercase_of_ascii_case_match(name, "backlog"@);
    }
    if is_ascii_text(name) {
        lemma_ascii_text_matches_lowercase(name);
    }
}

/// The board priority of each Jira priority name, in any ASCII letter case:
/// `highest` and `blocker` are urgent, `high` and `critical` high, `medium`
/// medium, and `low`, `lowest` and `trivial` low. Any other ASCII name has
/// no board priority.
pub proof fn lemma_priority_names(name: Seq<char>)
    ensures
        eq_ignore_ascii_case(name, "highest"@) || eq_ignore_ascii_case(name, "blocker"@)
            ==> priority_for_jira_name(name) == Some(IssuePriority::Urgent),
        eq_ignore_ascii_case(name, "high"@) || eq_ignore_ascii_case(name, "critical"@)
            ==> priority_for_jira_name(name) == Some(IssuePriority::High),
        eq_ignore_ascii_case(name, "medium"@) ==> priority_for_jira_name(name) == Some(
            IssuePriority::Medium,
        ),
        eq_ignore_ascii_case(name, "low"@) || eq_ignore_ascii_case(name, "lowest"@)
            || eq_ignore_ascii_case(name, "trivial"@) ==> priority_for_jira_name(name) == Some(
            IssuePriority::Low,
        ),
        is_ascii_text(name) && !eq_ignore_ascii_case(name, "highest"@)
            && !eq_ignore_ascii_case(name, "blocker"@)
            && !eq_ignore_ascii_case(name, "high"@)
            && !eq_ignore_ascii_case(name, "critical"@)
            && !eq_ignore_ascii_case(name, "medium"@)
            && !eq_ignore_ascii_case(name, "low"@)
            && !eq_ignore_ascii_case(name, "lowest"@)
            && !eq_ignore_ascii_case(name, "trivial"@) ==> priority_for_jira_name(name) is None,
{
    reveal_strlit("highest");
    reveal_strlit("blocker");
    reveal_strlit("high");
    reveal_strlit("critical");
    reveal_strlit("medium");
    reveal_strlit("low");
    reveal_strlit("lowest");
    reveal_strlit("trivial");
    assert("highest"@.len() == 7);
    assert("blocker"@.len() == 7);
    assert("high"@.len() == 4);
    assert("critical"@.len() == 8);
    assert("medium"@.len() == 6);
    assert("low"@.len() == 3);
    assert("lowest"@.len() == 6);
    assert("trivial"@.len() == 7);
    assert("lowest"@[0] != "medium"@[0]);
    assert("trivial"@[0] != "highest"@[0]);
    assert("trivial"@[0] != "blocker"@[0]);
    assert("highest"@[0] != "blocker"@[0]);
    if eq_ignore_ascii_case(name, "highest"@) {
        lemma_lower_literal("highest"@);
        lemma_lowercase_of_ascii_case_match(name, "highest"@);
    }
    if eq_ignore_ascii_case(name, "blocker"@) {
        lemma_lower_literal("blocker"@);
        lemma_lowercase_of_ascii_case_match(name, "blocker"@);
    }
    if eq_ignore_ascii_case(name, "high"@) {
        lemma_lower_literal("high"@);
        lemma_lowercase_of_ascii_case_match(name, "high"@);
    }
    if eq_ignore_ascii_case(name, "critical"@) {
        lemma_lower_literal("critical"@);
        lemma_lowercase_of_ascii_case_match(name, "critical"@);
    }
    if eq_ignore_ascii_case(name, "medium"@) {
        lemma_lower_literal("medium"@);
        lemma_lowercase_of_ascii_case_match(name, "medium"@);
    }
    if eq_ignore_ascii_case(name, "low"@) {
        lemma_lower_literal("low"@);
        lemma_lowercase_of_ascii_case_match(name, "low"@);
    }
    if eq_ignore_ascii_case(name, "lowest"@) {
        lemma_lower_literal("lowest"@);
        lemma_lowercase_of_ascii_case_match(name, "lowest"@);
    }
    if eq_ignore_ascii_case(name, "trivial"@) {
        lemma_lower_literal("trivial"@);
        lemma_lowercase_of_ascii_case_match(name, "trivial"@);
    }
    if is_ascii_text(name) {
        lemma_ascii_text_matches_lowercase(name);
    }
}

// ---------------------------------------------------------------------------
// Jira statuses offered for mapping
// ---------------------------------------------------------------------------

/// `v` shows status `s`: its name and its category's key and name.
pub open spec fn is_view_of(v: JiraStatusView, s: JiraStatus) -> bool {
    &&& s.status_category matches Some(c)
    &&& v.name@ == s.name@
    &&& v.category_key@ == c.key@
    &&& v.category_name@ == c.name@
}

/// Status `i` has a category, and no earlier status with a category has its
/// name.
pub open spec fn first_with_name(statuses: Seq<JiraStatus>, i: int) -> bool {
    &&& 0 <= i < statuses.len()
    &&& statuses[i].status_category is Some
    &&& forall|j: int|
        0 <= j < i && (#[trigger] statuses[j]).status_category is Some ==> statuses[j].name@
            != statuses[i].name@
}

/// The names of the views ascend strictly.
pub open spec fn names_ascending(views: Seq<JiraStatusView>) -> bool {
    forall|p: int, q: int|
        0 <= p < q < views.len() ==> chars_lt(#[trigger] views[p].name@, #[trigger] views[q].name@)
}

/// `v` shows the first status that has a category and `v`'s name.
pub open spec fn shows_first(statuses: Seq<JiraStatus>, v: JiraStatusView) -> bool {
    exists|i: int| #[trigger] first_with_name(statuses, i) && is_view_of(v, statuses[i])
}

/// Some view has this name.
pub open spec fn has_name(views: Seq<JiraStatusView>, name: Seq<char>) -> bool {
    exists|k: int| 0 <= k < views.len() && (#[trigger] views[k]).name@ == name
}

/// `views` lists the statuses that have a category, once per name, in
/// ascending name order; of several statuses with one name, the first is
/// shown.
pub open spec fn status_views_of(statuses: Seq<JiraStatus>, views: Seq<JiraStatusView>) -> bool {
    &&& names_ascending(views)
    &&& forall|k: int| 0 <= k < views.len() ==> #[trigger] shows_first(statuses, views[k])
    &&& forall|i: int|
        0 <= i < statuses.len() && (#[trigger] statuses[i]).status_category is Some ==> has_name(
            views,
            statuses[i].name@,
        )
}

/// The view of a status with a category.
fn view_of(s: &JiraStatus) -> (r: Option<JiraStatusView>)
    ensures
        s.status_category is Some <==> r is Some,
        r matches Some(v) ==> is_view_of(v, *s),
{
    match &s.status_category {
        Some(c) => Some(
            JiraStatusView {
                name: s.name.clone(),
                category_key: c.key.clone(),
                category_name: c.name.clone(),
            },
        ),
        None => None,
    }
}

/// The Jira statuses offered for mapping: those with a category, sorted by
/// name, one per name (Jira can have duplicate status names across
/// projects; the first is kept).
pub fn status_views(statuses: &Vec<JiraStatus>) -> (r: Vec<JiraStatusView>)
    ensures
        status_views_of(statuses@, r@),
{
    let mut r: Vec<JiraStatusView> = Vec::new();
    let ghost mut origin: Seq<int> = Seq::empty();
    let mut i: usize = 0;
    while i < statuses.len()
        invariant
            i <= statuses.len(),
            names_ascending(r@),
            origin.len() == r@.len(),
            forall|k: int|
                0 <= k < r@.len() ==> 0 <= #[trigger] origin[k] < i && first_with_name(
                    statuses@,
                    origin[k],
                ) && is_view_of(r@[k], statuses@[origin[k]]),
            forall|j: int|
                0 <= j < i && (#[trigger] statuses@[j]).status_category is Some ==> has_name(
                    r@,
                    statuses@[j].name@,
                ),
        decreases statuses.len() - i,
    {
        match view_of(&statuses[i]) {
            None => {},
            Some(v) => {
                let mut p: usize = 0;
                while p < r.len() && str_less(r[p].name.as_str(), v.name.as_str())
                    invariant
                        p <= r.len(),
                        forall|q: int| 0 <= q < p ==> chars_lt(#[trigger] r@[q].name@, v.name@),
                    decreases r.len() - p,
                {
                    p += 1;
                }
                let present = p < r.len() && str_equal(r[p].name.as_str(), v.name.as_str());
                if !present {
                    proof {
                        // Every name in `r` differs from the new one.
                        assert forall|q: int| 0 <= q < r@.len() implies chars_lt(
                            v.name@,
                            #[trigger] r@[q].name@,
                        ) || q < p by {
                            if q >= p {
                                lemma_chars_lt_total(r@[p as int].name@, v.name@);
                                if q > p {
                                    lemma_chars_lt_transitive(v.name@, r@[p as int].name@, r@[q].name@);
                                }
                            }
                        }
                        assert forall|q: int| 0 <= q < r@.len() implies (#[trigger] r@[q]).name@
                            != v.name@ by {
                            lemma_chars_lt_irreflexive(v.name@);
                        }
                        assert forall|j: int|
                            0 <= j < i && (#[trigger] statuses@[j]).status_category
                                is Some implies statuses@[j].name@ != statuses@[i as int].name@ by {
                            let k = choose|k: int|
                                0 <= k < r@.len() && (#[trigger] r@[k]).name@ == statuses@[j].name@;
                            assert(r@[k].name@ != v.name@);
                        }
                        assert(first_with_name(statuses@, i as int));
                    }
                    let ghost old_r = r@;
                    r.insert(p, v);
                    proof {
                        origin = origin.insert(p as int, i as int);
                        assert forall|a: int, b: int| 0 <= a < b < r@.len() implies chars_lt(
                            #[trigger] r@[a].name@,
                            #[trigger] r@[b].name@,
                        ) by {
                            if a < p && b == p {
                            } else if a < p && b > p {
                                assert(old_r[b - 1] == r@[b]);
                                lemma_chars_lt_transitive(r@[a].name@, v.name@, r@[b].name@);
                            } else if a == p {
                                assert(old_r[b - 1] == r@[b]);
                            } else if a > p {
                                assert(old_r[a - 1] == r@[a]);
                                assert(old_r[b - 1] == r@[b]);
                            }
                        }
                        assert forall|j: int|
                            0 <= j < i + 1 && (#[trigger] statuses@[j]).status_category
                                is Some implies has_name(r@, statuses@[j].name@) by {
                            if j == i {
                                assert(r@[p as int].name@ == statuses@[j].name@);
                            } else {
                                let k = choose|k: int|
                                    0 <= k < old_r.len() && (#[trigger] old_r[k]).name@
                                        == statuses@[j].name@;
                                if k < p {
                                    assert(r@[k] == old_r[k]);
                                } else {
                                    assert(r@[k + 1] == old_r[k]);
                                }
                            }
                        }
                    }
                } else {
                    proof {
                        assert forall|j: int|
                            0 <= j < i + 1 && (#[trigger] statuses@[j]).status_category
                                is Some implies has_name(r@, statuses@[j].name@) by {
                            if j == i {
                                assert(r@[p as int].name@ == statuses@[j].name@);
                            }
                        }
                    }
                }
            },
        }
        i += 1;
    }
    proof {
        assert forall|k: int| 0 <= k < r@.len() implies #[trigger] shows_first(statuses@, r@[k]) by {
            assert(first_with_name(statuses@, origin[k]));
        }
    }
    r
}

} // verus!
