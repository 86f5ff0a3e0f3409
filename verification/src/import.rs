//! The decisions of connecting a Jira site and importing Jira issues: which
//! site is used, which batch is accepted, which board status new issues get,
//! what an imported issue records about its Jira origin, and how Jira
//! comments are shown.
use vstd::prelude::*;

use crate::adf::{adf_to_markdown, markdown};
use crate::error::{error_text, JiraError};
use crate::json::{first_key, height, json_get, Json};
use crate::jql::{is_issue_key, issue_key_shape};
use crate::metadata::{
    imported_keys, keys_not_imported, linked_issue_key, transition_entries, transitions_cache,
};
use crate::site::{before_char, client_site_url, jira_project_key, normalize_site_url};
use crate::site::{issue_browse_url, site_url_problem, validate_jira_site_url};
use crate::text::{chars_of, owned, trim, trim_chars, trim_end_char, text_uppercase};
use crate::types::{AtlassianSite, JiraComment, JiraCommentView, JiraConnectionInfo, JiraTransition};

verus! {

broadcast use vstd::string::group_string_axioms;

/// The most issues one import accepts.
pub const MAX_IMPORT_BATCH: usize = 20;

/// The answer to an import of more keys than one import accepts.
pub const TOO_MANY_ISSUES_MESSAGE: &'static str = "Cannot import more than 20 issues at once";

/// The answer to an import whose keys are all imported already.
pub const ALREADY_IMPORTED_MESSAGE: &'static str =
    "All selected issues are already imported in this project";

/// What an import request asks for, by the number of keys it holds.
#[derive(Debug, Clone, Copy, PartialEq, Eq, Structural)]
pub enum ImportBatch {
    /// No keys: nothing is imported.
    Nothing,
    /// More keys than one import accepts.
    TooMany,
    /// A batch that can be imported.
    Proceed,
}

/// Where the site of a new connection comes from.
#[derive(Debug)]
pub enum ConnectSite {
    /// Found from the sites that an OAuth token reaches.
    AutoDetect,
    /// The given, normalized and checked URL.
    Given(String),
}

// ---------------------------------------------------------------------------
// Specification
// ---------------------------------------------------------------------------

/// An OAuth connection with no site, or the site `auto`, finds its site.
pub open spec fn detects_site(is_oauth: bool, site_url: Seq<char>) -> bool {
    is_oauth && (site_url.len() == 0 || site_url == "auto"@)
}

/// The id of the first status that is not hidden.
pub open spec fn first_visible(statuses: Seq<(u128, bool)>) -> Option<u128>
    decreases statuses.len(),
{
    if statuses.len() == 0 {
        None
    } else if !statuses[0].1 {
        Some(statuses[0].0)
    } else {
        first_visible(statuses.drop_first())
    }
}

/// The first status that is not hidden, else the first status.
pub open spec fn default_status(statuses: Seq<(u128, bool)>) -> Option<u128> {
    match first_visible(statuses) {
        Some(id) => Some(id),
        None => if statuses.len() > 0 {
            Some(statuses[0].0)
        } else {
            None
        },
    }
}

/// Whether a status with this id exists.
pub open spec fn has_status(statuses: Seq<(u128, bool)>, id: u128) -> bool {
    exists|i: int| 0 <= i < statuses.len() && (#[trigger] statuses[i]).0 == id
}

/// A JSON object whose keys are exactly `keys`, in order.
pub open spec fn has_keys(e: Seq<(String, Json)>, keys: Seq<Seq<char>>) -> bool {
    &&& e.len() == keys.len()
    &&& forall|k: int| 0 <= k < keys.len() ==> (#[trigger] e[k]).0@ == keys[k]
}

/// A JSON text value.
pub open spec fn is_text(j: Json, t: Seq<char>) -> bool {
    j matches Json::Text(s) && s@ == t
}

/// The `jira` section that an import records:
/// `{"jira": {"imported_at", "issue_id", "issue_key", "issue_url",
/// "jira_project_key", "jira_status", "transitions"}}`.
pub open spec fn is_link_metadata(
    j: Json,
    issue_key: Seq<char>,
    issue_id: Seq<char>,
    site_url: Seq<char>,
    status: Option<Seq<char>>,
    imported_at: Seq<char>,
    transitions: Json,
) -> bool {
    &&& j matches Json::Object(outer)
    &&& outer@.len() == 1
    &&& outer@[0].0@ == "jira"@
    &&& outer@[0].1 matches Json::Object(e)
    &&& has_keys(
        e@,
        seq![
            "imported_at"@,
            "issue_id"@,
            "issue_key"@,
            "issue_url"@,
            "jira_project_key"@,
            "jira_status"@,
            "transitions"@,
        ],
    )
    &&& is_text(e@[0].1, imported_at)
    &&& is_text(e@[1].1, issue_id)
    &&& is_text(e@[2].1, issue_key)
    &&& is_text(e@[3].1, site_url + "/browse/"@ + issue_key)
    &&& is_text(e@[4].1, before_char(issue_key, '-'))
    &&& match status {
        Some(s) => is_text(e@[5].1, s),
        None => e@[5].1 is Null,
    }
    &&& e@[6].1 == transitions
}

/// The view of a Jira comment: author `Unknown` when there is none, and the
/// body as markdown (empty when there is none).
pub open spec fn is_comment_view(v: JiraCommentView, c: JiraComment) -> bool {
    &&& v.id@ == c.id@
    &&& v.author_name@ == match c.author {
        Some(a) => a.display_name@,
        None => "Unknown"@,
    }
    &&& v.body_markdown@ == match c.body {
        Some(b) => markdown(b, 0),
        None => Seq::empty(),
    }
    &&& v.created == c.created
}

/// The nesting of a comment's body fits the converter's depth counter.
pub open spec fn body_in_range(c: JiraComment) -> bool {
    c.body matches Some(b) ==> height(b) <= usize::MAX
}

// ---------------------------------------------------------------------------
// Implementation
// ---------------------------------------------------------------------------

/// The site of a new connection: OAuth connections without a site (or with
/// `auto`) find theirs later; every other site is normalized and must be an
/// Atlassian Cloud URL.
pub fn plan_connect_site(site_url: &str, is_oauth: bool) -> (r: Result<ConnectSite, &'static str>)
    ensures
        ({
            let s = trim_end_char(trim(site_url@), '/');
            if detects_site(is_oauth, s) {
                r matches Ok(ConnectSite::AutoDetect)
            } else {
                match site_url_problem(s) {
                    Some(msg) => r matches Err(m) && m@ == msg,
                    None => r matches Ok(ConnectSite::Given(u)) && u@ == s,
                }
            }
        }),
{
    let s = normalize_site_url(site_url);
    let cs = chars_of(s.as_str());
    proof {
        reveal_strlit("auto");
    }
    let is_auto = cs.len() == 4 && cs[0] == 'a' && cs[1] == 'u' && cs[2] == 't' && cs[3] == 'o';
    assert(is_auto <==> s@ == "auto"@) by {
        if s@ == "auto"@ {
            assert(cs@[0] == 'a' && cs@[1] == 'u' && cs@[2] == 't' && cs@[3] == 'o');
        }
        if is_auto {
            assert(s@ =~= "auto"@);
        }
    }
    if is_oauth && (cs.len() == 0 || is_auto) {
        return Ok(ConnectSite::AutoDetect);
    }
    match validate_jira_site_url(s.as_str()) {
        Err(msg) => Err(msg),
        Ok(()) => Ok(ConnectSite::Given(s)),
    }
}

/// The site URL found from the sites an OAuth token reaches: the first one,
/// without trailing slashes.
pub fn detected_site_url(sites: &Vec<AtlassianSite>) -> (r: Option<String>)
    ensures
        sites@.len() == 0 <==> r is None,
        r matches Some(u) ==> u@ == trim_end_char(sites@[0].url@, '/'),
{
    if sites.len() == 0 {
        None
    } else {
        Some(client_site_url(sites[0].url.as_str()))
    }
}

/// What the frontend is told of a stored connection (site, auth type and
/// connection time), or that there is none.
pub fn connection_info(stored: Option<(String, String, String)>) -> (r: JiraConnectionInfo)
    ensures
        match stored {
            Some((site, auth_type, at)) => r.connected && r.site_url == Some(site) && r.auth_type
                == Some(auth_type) && r.connected_at == Some(at),
            None => !r.connected && r.site_url is None && r.auth_type is None && r.connected_at
                is None,
        },
{
    match stored {
        Some((site, auth_type, at)) => JiraConnectionInfo {
            connected: true,
            site_url: Some(site),
            auth_type: Some(auth_type),
            connected_at: Some(at),
        },
        None => JiraConnectionInfo {
            connected: false,
            site_url: None,
            auth_type: None,
            connected_at: None,
        },
    }
}

/// Whether an import of `count` keys goes ahead.
pub fn check_import_batch(count: usize) -> (r: ImportBatch)
    ensures
        count == 0 ==> r == ImportBatch::Nothing,
        count > MAX_IMPORT_BATCH ==> r == ImportBatch::TooMany,
        0 < count <= MAX_IMPORT_BATCH ==> r == ImportBatch::Proceed,
{
    if count == 0 {
        ImportBatch::Nothing
    } else if count > MAX_IMPORT_BATCH {
        ImportBatch::TooMany
    } else {
        ImportBatch::Proceed
    }
}

/// The status new issues get by default: the first status that is not
/// hidden, else the first status; none for a project without statuses.
pub fn default_status_id(statuses: &Vec<(u128, bool)>) -> (r: Option<u128>)
    ensures
        r == default_status(statuses@),
{
    let mut i: usize = 0;
    assert(statuses@.subrange(0, statuses@.len() as int) =~= statuses@);
    while i < statuses.len()
        invariant
            i <= statuses.len(),
            first_visible(statuses@) == first_visible(
                statuses@.subrange(i as int, statuses@.len() as int),
            ),
        decreases statuses.len() - i,
    {
        let ghost rest = statuses@.subrange(i as int, statuses@.len() as int);
        assert(rest[0] == statuses@[i as int]);
        assert(rest.drop_first() =~= statuses@.subrange(i + 1, statuses@.len() as int));
        if !statuses[i].1 {
            return Some(statuses[i].0);
        }
        i += 1;
    }
    if statuses.len() > 0 {
        Some(statuses[0].0)
    } else {
        None
    }
}

/// The status new issues get: the requested one when the project has it,
/// else the default.
pub fn effective_status_id(statuses: &Vec<(u128, bool)>, requested: u128, default_id: u128) -> (r:
    u128)
    ensures
        r == if has_status(statuses@, requested) {
            requested
        } else {
            default_id
        },
{
    let mut i: usize = 0;
    while i < statuses.len()
        invariant
            i <= statuses.len(),
            forall|j: int| 0 <= j < i ==> (#[trigger] statuses@[j]).0 != requested,
        decreases statuses.len() - i,
    {
        if statuses[i].0 == requested {
            assert(statuses@[i as int].0 == requested);
            return requested;
        }
        i += 1;
    }
    default_id
}

/// One text entry of a JSON object.
fn text_entry(key: &str, value: &str) -> (r: (String, Json))
    ensures
        r.0@ == key@,
        is_text(r.1, value@),
{
    (owned(key), Json::Text(owned(value)))
}

/// The `jira` section an import records for an issue fetched from the site.
pub fn link_metadata(
    issue_key: &str,
    issue_id: &str,
    site_url: &str,
    status: Option<&str>,
    imported_at: &str,
    transitions: Json,
) -> (r: Json)
    ensures
        is_link_metadata(
            r,
            issue_key@,
            issue_id@,
            site_url@,
            match status {
                Some(s) => Some(s@),
                None => None,
            },
            imported_at@,
            transitions,
        ),
{
    let mut e: Vec<(String, Json)> = Vec::new();
    e.push(text_entry("imported_at", imported_at));
    e.push(text_entry("issue_id", issue_id));
    e.push(text_entry("issue_key", issue_key));
    let url = issue_browse_url(site_url, issue_key);
    e.push(text_entry("issue_url", url.as_str()));
    let project = jira_project_key(issue_key);
    e.push(text_entry("jira_project_key", project.as_str()));
    match status {
        Some(s) => e.push(text_entry("jira_status", s)),
        None => e.push((owned("jira_status"), Json::Null)),
    }
    e.push((owned("transitions"), transitions));
    let mut outer: Vec<(String, Json)> = Vec::new();
    outer.push((owned("jira"), Json::Object(e)));
    Json::Object(outer)
}

/// The answer to an import of a key that is not an issue key.
pub fn invalid_key_message(issue_key: &str) -> (r: String)
    ensures
        r@ == "Invalid Jira issue key: "@ + issue_key@,
{
    let mut r = owned("Invalid Jira issue key: ");
    crate::text::push_str(&mut r, issue_key);
    r
}

/// The answer to a manual status sync whose transition failed.
pub fn sync_failure_message(e: &JiraError) -> (r: String)
    ensures
        match error_text(e) {
            Some(t) => r@ == "Failed to sync status: "@ + t,
            None => ("Failed to sync status: "@ + "Network error: "@).is_prefix_of(r@),
        },
{
    let mut r = owned("Failed to sync status: ");
    let detail = e.to_string();
    let ghost before = r@;
    crate::text::push_str(&mut r, detail.as_str());
    proof {
        if error_text(e) is None {
            let p = "Failed to sync status: "@ + "Network error: "@;
            assert forall|i: int| 0 <= i < p.len() implies p[i] == r@[i] by {
                if i >= before.len() {
                    assert(r@[i] == detail@[i - before.len()]);
                }
            }
        }
    }
    r
}

/// What an import does with the keys it goes ahead with.
#[derive(Debug)]
pub enum ImportAction {
    /// Fetch this issue from Jira and create it on the board.
    FetchIssue(String),
    /// Stop with this error; the issues created before stay.
    RejectKey(String),
    /// Every key is handled.
    Finished,
}

/// The keys an import goes ahead with: those not imported yet, in request
/// order, or `None` when every requested key is imported already (the
/// import is then refused as a conflict).
pub fn import_keys(issue_keys: &Vec<String>, imported: &Vec<String>) -> (r: Option<Vec<String>>)
    ensures
        match r {
            Some(keys) => keys@.len() > 0 && keys@.map_values(|k: String| k@) == keys_not_imported(
                issue_keys@.map_values(|k: String| k@),
                imported@.map_values(|k: String| k@),
            ),
            None => keys_not_imported(
                issue_keys@.map_values(|k: String| k@),
                imported@.map_values(|k: String| k@),
            ).len() == 0,
        },
{
    let keys = crate::metadata::keys_to_import(issue_keys, imported);
    if keys.len() == 0 {
        None
    } else {
        Some(keys)
    }
}

/// The next step of an import once `handled` of its keys are handled: keys
/// are taken in order; the first that is not an issue key stops the import
/// (the issues created before it stay); after the last key the import is
/// finished.
pub fn next_import_action(keys: &Vec<String>, handled: usize) -> (r: ImportAction)
    ensures
        handled >= keys@.len() ==> r is Finished,
        handled < keys@.len() && !issue_key_shape(keys@[handled as int]@) ==> (r matches ImportAction::RejectKey(m)
            && m@ == "Invalid Jira issue key: "@ + keys@[handled as int]@),
        handled < keys@.len() && issue_key_shape(keys@[handled as int]@) ==> (r matches ImportAction::FetchIssue(k)
            && k@ == keys@[handled as int]@),
{
    if handled >= keys.len() {
        ImportAction::Finished
    } else if !is_issue_key(keys[handled].as_str()) {
        ImportAction::RejectKey(invalid_key_message(keys[handled].as_str()))
    } else {
        ImportAction::FetchIssue(keys[handled].clone())
    }
}

/// The transitions cached for an imported issue: those fetched, or an empty
/// object when they could not be fetched.
pub fn cached_transitions(fetched: Option<&Vec<JiraTransition>>) -> (r: Json)
    ensures
        match fetched {
            Some(ts) => r matches Json::Object(e) && e@ == transition_entries(ts@),
            None => r matches Json::Object(e) && e@.len() == 0,
        },
{
    match fetched {
        Some(ts) => transitions_cache(ts),
        None => Json::Object(Vec::new()),
    }
}

/// The labels of an imported issue that become tags: those that are not
/// blank, in order.
pub fn tag_labels(labels: &Vec<String>) -> (r: Vec<String>)
    ensures
        r@.map_values(|l: String| l@) == labels@.map_values(|l: String| l@).filter(
            |l: Seq<char>| trim(l).len() > 0,
        ),
{
    let ghost views = labels@.map_values(|l: String| l@);
    let mut r: Vec<String> = Vec::new();
    let mut i: usize = 0;
    while i < labels.len()
        invariant
            i <= labels.len(),
            views == labels@.map_values(|l: String| l@),
            r@.map_values(|l: String| l@) == views.take(i as int).filter(
                |l: Seq<char>| trim(l).len() > 0,
            ),
        decreases labels.len() - i,
    {
        proof {
            assert(views.take(i + 1).drop_last() =~= views.take(i as int));
            assert(views.take(i + 1).last() == views[i as int]);
            views.take(i as int).lemma_filter_push(views[i as int], |l: Seq<char>| trim(l).len() > 0);
            assert(views.take(i + 1) =~= views.take(i as int).push(views[i as int]));
        }
        let cs = chars_of(labels[i].as_str());
        let t = trim_chars(cs.as_slice());
        if t.len() > 0 {
            let ghost before = r@.map_values(|l: String| l@);
            r.push(labels[i].clone());
            assert(r@.map_values(|l: String| l@) =~= before.push(views[i as int]));
        }
        i += 1;
    }
    assert(views.take(labels.len() as int) =~= views);
    r
}

/// The view of a Jira comment for the frontend.
pub fn comment_view(c: &JiraComment) -> (r: JiraCommentView)
    requires
        body_in_range(*c),
    ensures
        is_comment_view(r, *c),
{
    let body_markdown = match &c.body {
        Some(b) => adf_to_markdown(b),
        None => String::new(),
    };
    let author_name = match &c.author {
        Some(a) => a.display_name.clone(),
        None => owned("Unknown"),
    };
    JiraCommentView { id: c.id.clone(), author_name, body_markdown, created: c.created.clone() }
}

/// The views of a list of Jira comments, in order.
pub fn comment_views(comments: &Vec<JiraComment>) -> (r: Vec<JiraCommentView>)
    requires
        forall|i: int|
            0 <= i < comments@.len() ==> body_in_range(#[trigger] comments@[i]),
    ensures
        r@.len() == comments@.len(),
        forall|i: int| 0 <= i < comments@.len() ==> is_comment_view(#[trigger] r@[i], comments@[i]),
{
    let mut r: Vec<JiraCommentView> = Vec::new();
    let mut i: usize = 0;
    while i < comments.len()
        invariant
            i <= comments.len(),
            r@.len() == i,
            forall|j: int|
                0 <= j < comments@.len() ==> body_in_range(#[trigger] comments@[j]),
            forall|j: int| 0 <= j < i ==> is_comment_view(#[trigger] r@[j], comments@[j]),
        decreases comments.len() - i,
    {
        let v = comment_view(&comments[i]);
        r.push(v);
        i += 1;
    }
    r
}

// ---------------------------------------------------------------------------
// Laws
// ---------------------------------------------------------------------------

/// What an import records links the issue to its key: reading the key back
/// from the recorded metadata gives the imported key.
pub proof fn lemma_link_metadata_key(
    j: Json,
    issue_key: Seq<char>,
    issue_id: Seq<char>,
    site_url: Seq<char>,
    status: Option<Seq<char>>,
    imported_at: Seq<char>,
    transitions: Json,
)
    requires
        is_link_metadata(j, issue_key, issue_id, site_url, status, imported_at, transitions),
    ensures
        linked_issue_key(j) == Some(issue_key),
{
    reveal_strlit("imported_at");
    reveal_strlit("issue_id");
    reveal_strlit("issue_key");
    let outer = j->Object_0@;
    let e = outer[0].1->Object_0@;
    assert(e[0].0@ != "issue_key"@) by {
        assert(e[0].0@[1] != "issue_key"@[1]);
    }
    assert(e[1].0@ != "issue_key"@) by {
        assert(e[1].0@.len() != "issue_key"@.len());
    }
    assert(json_get(j, "jira"@) == Some(outer[0].1));
    assert(json_get(outer[0].1, "issue_key"@) == Some(e[2].1)) by {
        let e1 = e.drop_first();
        let e2 = e1.drop_first();
        assert(e1[0] == e[1]);
        assert(e2[0] == e[2]);
        assert(first_key(e2, "issue_key"@) == Some(0int));
        assert(first_key(e1, "issue_key"@) == Some(1int));
        assert(first_key(e, "issue_key"@) == Some(2int));
    }
}

/// Once an issue is imported, asking to import its key again finds nothing
/// new: the key (in any letter case that upper-cases alike) is left out.
pub proof fn lemma_imported_key_not_reimported(
    existing: Seq<Json>,
    j: Json,
    issue_key: Seq<char>,
    issue_id: Seq<char>,
    site_url: Seq<char>,
    status: Option<Seq<char>>,
    imported_at: Seq<char>,
    transitions: Json,
    requested: Seq<char>,
)
    requires
        is_link_metadata(j, issue_key, issue_id, site_url, status, imported_at, transitions),
        text_uppercase(requested) == text_uppercase(issue_key),
    ensures
        keys_not_imported(seq![requested], imported_keys(existing.push(j))) == Seq::<
            Seq<char>,
        >::empty(),
{
    lemma_link_metadata_key(j, issue_key, issue_id, site_url, status, imported_at, transitions);
    let imp = imported_keys(existing.push(j));
    assert(existing.push(j).drop_last() =~= existing);
    assert(imp.last() == text_uppercase(issue_key));
    assert(imp[imp.len() - 1] == text_uppercase(requested));
    assert(imp.contains(text_uppercase(requested)));
    let keys = seq![requested];
    assert(keys.drop_last() =~= Seq::<Seq<char>>::empty());
    assert(keys.last() == requested);
    assert(keys_not_imported(keys.drop_last(), imp) == Seq::<Seq<char>>::empty());
}

} // verus!
