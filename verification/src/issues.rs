//! Issues of the local board: the SQL of an issue search with its bound
//! values, the issue's short identifier, the stored priority text, and the
//! split of a nullable update field into a value and a "set to null" flag.
use vstd::prelude::*;

use crate::status::IssuePriority;
use crate::text::{
    chars_of, decimal, decimal_string, join, join_strings, push_char, push_str, to_uppercase,
    text_uppercase,
};

verus! {

broadcast use vstd::string::group_string_axioms;

/// The columns of an issue row.
pub const ISSUE_SELECT: &'static str =
    "SELECT\n    id, project_id, issue_number, simple_id, status_id, title, description,\n    priority, start_date, target_date, completed_at, sort_order,\n    parent_issue_id, parent_issue_sort_order, extension_metadata,\n    creator_user_id, created_at, updated_at\nFROM issues";

/// The field an issue search sorts by.
#[derive(Debug, Clone, Copy, PartialEq, Eq, Structural)]
pub enum IssueSortField {
    SortOrder,
    Priority,
    CreatedAt,
    UpdatedAt,
    Title,
}

/// The direction of a sort.
#[derive(Debug, Clone, Copy, PartialEq, Eq, Structural)]
pub enum SortDirection {
    Asc,
    Desc,
}

/// A search over the issues of one project; ids are UUIDs as integers.
#[derive(Debug, Clone)]
pub struct SearchIssuesRequest {
    pub project_id: u128,
    pub status_id: Option<u128>,
    pub status_ids: Option<Vec<u128>>,
    pub priority: Option<IssuePriority>,
    pub parent_issue_id: Option<u128>,
    pub search: Option<String>,
    pub simple_id: Option<String>,
    pub sort_field: Option<IssueSortField>,
    pub sort_direction: Option<SortDirection>,
    pub limit: Option<u32>,
    pub offset: Option<u32>,
}

/// A value bound to a SQL placeholder; a real number is held by its
/// IEEE-754 bit pattern.
#[derive(Debug, Clone)]
pub enum SqlValue {
    Uuid(u128),
    Text(String),
    Bool(bool),
    RealBits(u64),
    Null,
}

/// The mathematical value of a bound SQL value.
pub enum SqlArg {
    Uuid(u128),
    Text(Seq<char>),
    Bool(bool),
    RealBits(u64),
    Null,
}

impl View for SqlValue {
    type V = SqlArg;

    open spec fn view(&self) -> SqlArg {
        match self {
            SqlValue::Uuid(u) => SqlArg::Uuid(*u),
            SqlValue::Text(t) => SqlArg::Text(t@),
            SqlValue::Bool(b) => SqlArg::Bool(*b),
            SqlValue::RealBits(b) => SqlArg::RealBits(*b),
            SqlValue::Null => SqlArg::Null,
        }
    }
}

/// The two statements of an issue search, the values for their placeholders
/// in order, and the page taken.
#[derive(Debug)]
pub struct IssueSearchQuery {
    pub count_sql: String,
    pub data_sql: String,
    pub binds: Vec<SqlValue>,
    pub limit: u32,
    pub offset: u32,
}

/// A partial update of an issue: `None` leaves a field as it is; for a
/// nullable field `Some(None)` sets it to null and `Some(Some(v))` to `v`.
/// Times are given as the text that is stored, sort orders as the bit
/// patterns of their floats, and the metadata as its JSON text.
#[derive(Debug, Clone)]
pub struct UpdateIssueRequest {
    pub status_id: Option<u128>,
    pub title: Option<String>,
    pub description: Option<Option<String>>,
    pub priority: Option<Option<IssuePriority>>,
    pub start_date: Option<Option<String>>,
    pub target_date: Option<Option<String>>,
    pub completed_at: Option<Option<String>>,
    pub sort_order: Option<u64>,
    pub parent_issue_id: Option<Option<u128>>,
    pub parent_issue_sort_order: Option<Option<u64>>,
    pub extension_metadata: Option<String>,
}

/// The statement that updates an issue: each field keeps its value when its
/// placeholder is null, and a nullable field is cleared when its flag is set.
pub const ISSUE_UPDATE: &'static str = "UPDATE issues SET\n                status_id = COALESCE($2, status_id),\n                title = COALESCE($3, title),\n                description = CASE WHEN $4 IS NOT NULL THEN $4 ELSE CASE WHEN $5 THEN NULL ELSE description END END,\n                priority = CASE WHEN $6 IS NOT NULL THEN $6 ELSE CASE WHEN $7 THEN NULL ELSE priority END END,\n                start_date = CASE WHEN $8 IS NOT NULL THEN $8 ELSE CASE WHEN $9 THEN NULL ELSE start_date END END,\n                target_date = CASE WHEN $10 IS NOT NULL THEN $10 ELSE CASE WHEN $11 THEN NULL ELSE target_date END END,\n                completed_at = CASE WHEN $12 IS NOT NULL THEN $12 ELSE CASE WHEN $13 THEN NULL ELSE completed_at END END,\n                sort_order = COALESCE($14, sort_order),\n                parent_issue_id = CASE WHEN $15 IS NOT NULL THEN $15 ELSE CASE WHEN $16 THEN NULL ELSE parent_issue_id END END,\n                parent_issue_sort_order = CASE WHEN $17 IS NOT NULL THEN $17 ELSE CASE WHEN $18 THEN NULL ELSE parent_issue_sort_order END END,\n                extension_metadata = COALESCE($19, extension_metadata),\n                updated_at = datetime('now', 'subsec')\n            WHERE id = $1";

/// Issues stored on the local board.
pub struct LocalIssue;

// ---------------------------------------------------------------------------
// Outside items
// ---------------------------------------------------------------------------

/// Whether `char::is_alphanumeric` holds (Unicode letters and numbers).
pub uninterp spec fn unicode_alphanumeric(c: char) -> bool;

/// `char::is_alphanumeric`: the result is named; on ASCII it holds of the
/// letters and digits only.
#[verifier::external_body]
fn is_alphanumeric(c: char) -> (r: bool)
    ensures
        r == unicode_alphanumeric(c),
        (c as u32) < 128 ==> (r <==> (('a' <= c && c <= 'z') || ('A' <= c && c <= 'Z') || ('0'
            <= c && c <= '9'))),
{
    c.is_alphanumeric()
}

// ---------------------------------------------------------------------------
// Specification
// ---------------------------------------------------------------------------

/// The stored text of a priority.
pub open spec fn priority_text(p: IssuePriority) -> Seq<char> {
    match p {
        IssuePriority::Urgent => "urgent"@,
        IssuePriority::High => "high"@,
        IssuePriority::Medium => "medium"@,
        IssuePriority::Low => "low"@,
    }
}

/// The priority that a stored text names, if any.
pub open spec fn priority_of_text(s: Seq<char>) -> Option<IssuePriority> {
    if s == "urgent"@ {
        Some(IssuePriority::Urgent)
    } else if s == "high"@ {
        Some(IssuePriority::High)
    } else if s == "medium"@ {
        Some(IssuePriority::Medium)
    } else if s == "low"@ {
        Some(IssuePriority::Low)
    } else {
        None
    }
}

/// The placeholder `$k`.
pub open spec fn placeholder(k: nat) -> Seq<char> {
    "$"@ + decimal(k)
}

/// The placeholders `$start`, ..., `$(start + n - 1)`.
pub open spec fn placeholders(start: nat, n: nat) -> Seq<Seq<char>> {
    Seq::new(n, |j: int| placeholder((start + j) as nat))
}

/// How many status ids the search lists.
pub open spec fn id_count(req: SearchIssuesRequest) -> nat {
    match req.status_ids {
        Some(ids) => ids@.len(),
        None => 0,
    }
}

/// One for a filter that is present, zero otherwise.
pub open spec fn present(b: bool) -> nat {
    if b {
        1
    } else {
        0
    }
}

/// The placeholder index of the first listed status id.
pub open spec fn ids_index(req: SearchIssuesRequest) -> nat {
    2 + present(req.status_id is Some)
}

/// The placeholder index of the priority.
pub open spec fn priority_index(req: SearchIssuesRequest) -> nat {
    ids_index(req) + id_count(req)
}

/// The placeholder index of the parent issue.
pub open spec fn parent_index(req: SearchIssuesRequest) -> nat {
    priority_index(req) + present(req.priority is Some)
}

/// The placeholder index of the text pattern.
pub open spec fn search_index(req: SearchIssuesRequest) -> nat {
    parent_index(req) + present(req.parent_issue_id is Some)
}

/// The placeholder index of the short identifier.
pub open spec fn simple_id_index(req: SearchIssuesRequest) -> nat {
    search_index(req) + present(req.search is Some)
}

/// The first placeholder index that no filter uses.
pub open spec fn next_placeholder(req: SearchIssuesRequest) -> nat {
    simple_id_index(req) + present(req.simple_id is Some)
}

/// A clause when its filter is present.
pub open spec fn clause_if(b: bool, clause: Seq<char>) -> Seq<Seq<char>> {
    if b {
        seq![clause]
    } else {
        Seq::empty()
    }
}

/// The `WHERE` clauses of a search, in order.
pub open spec fn search_clauses(req: SearchIssuesRequest) -> Seq<Seq<char>> {
    seq!["project_id = $1"@] + clause_if(req.status_id is Some, "status_id = "@ + placeholder(2))
        + clause_if(
        id_count(req) > 0,
        "status_id IN ("@ + join(placeholders(ids_index(req), id_count(req)), ", "@) + ")"@,
    ) + clause_if(req.priority is Some, "priority = "@ + placeholder(priority_index(req)))
        + clause_if(
        req.parent_issue_id is Some,
        "parent_issue_id = "@ + placeholder(parent_index(req)),
    ) + clause_if(
        req.search is Some,
        "(title LIKE "@ + placeholder(search_index(req)) + " OR description LIKE "@ + placeholder(
            search_index(req),
        ) + ")"@,
    ) + clause_if(req.simple_id is Some, "simple_id = "@ + placeholder(simple_id_index(req)))
}

/// The condition of a search.
pub open spec fn search_where(req: SearchIssuesRequest) -> Seq<char> {
    join(search_clauses(req), " AND "@)
}

/// The value bound for the single status id, if given.
pub open spec fn status_binds(req: SearchIssuesRequest) -> Seq<SqlArg> {
    match req.status_id {
        Some(s) => seq![SqlArg::Uuid(s)],
        None => Seq::empty(),
    }
}

/// The values bound for the listed status ids.
pub open spec fn ids_binds(req: SearchIssuesRequest) -> Seq<SqlArg> {
    match req.status_ids {
        Some(ids) => ids@.map_values(|u: u128| SqlArg::Uuid(u)),
        None => Seq::empty(),
    }
}

/// The value bound for the priority, if given.
pub open spec fn priority_binds(req: SearchIssuesRequest) -> Seq<SqlArg> {
    match req.priority {
        Some(p) => seq![SqlArg::Text(priority_text(p))],
        None => Seq::empty(),
    }
}

/// The value bound for the parent issue, if given.
pub open spec fn parent_binds(req: SearchIssuesRequest) -> Seq<SqlArg> {
    match req.parent_issue_id {
        Some(p) => seq![SqlArg::Uuid(p)],
        None => Seq::empty(),
    }
}

/// The value bound for the text pattern, if a text is given.
pub open spec fn pattern_binds(req: SearchIssuesRequest) -> Seq<SqlArg> {
    match req.search {
        Some(s) => seq![SqlArg::Text("%"@ + s@ + "%"@)],
        None => Seq::empty(),
    }
}

/// The value bound for the short identifier, if given.
pub open spec fn simple_id_binds(req: SearchIssuesRequest) -> Seq<SqlArg> {
    match req.simple_id {
        Some(s) => seq![SqlArg::Text(s@)],
        None => Seq::empty(),
    }
}

/// The values bound to the placeholders of a search, in order.
pub open spec fn search_binds(req: SearchIssuesRequest) -> Seq<SqlArg> {
    seq![SqlArg::Uuid(req.project_id)] + status_binds(req) + ids_binds(req) + priority_binds(req)
        + parent_binds(req) + pattern_binds(req) + simple_id_binds(req)
}

/// A value that may be absent, as a bound value (null when absent).
pub open spec fn uuid_or_null(o: Option<u128>) -> SqlArg {
    match o {
        Some(u) => SqlArg::Uuid(u),
        None => SqlArg::Null,
    }
}

/// A text that may be absent, as a bound value (null when absent).
pub open spec fn text_or_null(o: Option<String>) -> SqlArg {
    match o {
        Some(t) => SqlArg::Text(t@),
        None => SqlArg::Null,
    }
}

/// A real number that may be absent, as a bound value (null when absent).
pub open spec fn real_or_null(o: Option<u64>) -> SqlArg {
    match o {
        Some(b) => SqlArg::RealBits(b),
        None => SqlArg::Null,
    }
}

/// The new text of a nullable text field, or null.
pub open spec fn text_patch(f: Option<Option<String>>) -> SqlArg {
    match f {
        Some(Some(t)) => SqlArg::Text(t@),
        _ => SqlArg::Null,
    }
}

/// The new id of a nullable id field, or null.
pub open spec fn uuid_patch(f: Option<Option<u128>>) -> SqlArg {
    match f {
        Some(Some(u)) => SqlArg::Uuid(u),
        _ => SqlArg::Null,
    }
}

/// The new real number of a nullable real field, or null.
pub open spec fn real_patch(f: Option<Option<u64>>) -> SqlArg {
    match f {
        Some(Some(b)) => SqlArg::RealBits(b),
        _ => SqlArg::Null,
    }
}

/// The stored text of the new priority, or null.
pub open spec fn priority_patch_arg(f: Option<Option<IssuePriority>>) -> SqlArg {
    match f {
        Some(Some(p)) => SqlArg::Text(priority_text(p)),
        _ => SqlArg::Null,
    }
}

/// Whether a nullable field is set to null.
pub open spec fn clear_flag<T>(f: Option<Option<T>>) -> SqlArg {
    SqlArg::Bool(f matches Some(None))
}

/// The values bound to `$1`, ..., `$19` of the update statement, in order.
pub open spec fn update_binds(id: u128, req: UpdateIssueRequest) -> Seq<SqlArg> {
    seq![
        SqlArg::Uuid(id),
        uuid_or_null(req.status_id),
        text_or_null(req.title),
        text_patch(req.description),
        clear_flag(req.description),
        priority_patch_arg(req.priority),
        clear_flag(req.priority),
        text_patch(req.start_date),
        clear_flag(req.start_date),
        text_patch(req.target_date),
        clear_flag(req.target_date),
        text_patch(req.completed_at),
        clear_flag(req.completed_at),
        real_or_null(req.sort_order),
        uuid_patch(req.parent_issue_id),
        clear_flag(req.parent_issue_id),
        real_patch(req.parent_issue_sort_order),
        clear_flag(req.parent_issue_sort_order),
        text_or_null(req.extension_metadata),
    ]
}

/// The column a search sorts by.
pub open spec fn sort_column(f: Option<IssueSortField>) -> Seq<char> {
    match f {
        Some(IssueSortField::Priority) => "priority"@,
        Some(IssueSortField::CreatedAt) => "created_at"@,
        Some(IssueSortField::UpdatedAt) => "updated_at"@,
        Some(IssueSortField::Title) => "title"@,
        _ => "sort_order"@,
    }
}

/// The SQL keyword of a sort direction.
pub open spec fn sort_keyword(d: Option<SortDirection>) -> Seq<char> {
    match d {
        Some(SortDirection::Desc) => "DESC"@,
        _ => "ASC"@,
    }
}

/// The page size of a search: 100 unless given.
pub open spec fn page_limit(limit: Option<u32>) -> u32 {
    match limit {
        Some(l) => l,
        None => 100,
    }
}

/// The page start of a search: 0 unless given.
pub open spec fn page_offset(offset: Option<u32>) -> u32 {
    match offset {
        Some(o) => o,
        None => 0,
    }
}

/// The first `n` characters of `s` that are alphanumeric.
pub open spec fn first_alphanumeric(s: Seq<char>, n: nat) -> Seq<char>
    decreases s.len(),
{
    if s.len() == 0 || n == 0 {
        Seq::empty()
    } else if unicode_alphanumeric(s[0]) {
        seq![s[0]] + first_alphanumeric(s.drop_first(), (n - 1) as nat)
    } else {
        first_alphanumeric(s.drop_first(), n)
    }
}

/// The identifier part of an issue's short id: the first three alphanumeric
/// characters of the project name, upper-cased, or `PRJ` without a project.
pub open spec fn project_identifier(project_name: Option<Seq<char>>) -> Seq<char> {
    match project_name {
        Some(name) => text_uppercase(first_alphanumeric(name, 3)),
        None => "PRJ"@,
    }
}

/// The decimal text of a signed number.
pub open spec fn signed_decimal(n: int) -> Seq<char> {
    if n < 0 {
        "-"@ + decimal((-n) as nat)
    } else {
        decimal(n as nat)
    }
}

/// The short id of an issue: `IDENT-number`.
pub open spec fn simple_id_text(project_name: Option<Seq<char>>, issue_number: i32) -> Seq<char> {
    project_identifier(project_name) + "-"@ + signed_decimal(issue_number as int)
}

// ---------------------------------------------------------------------------
// Implementation
// ---------------------------------------------------------------------------

/// The stored text of a priority.
pub fn priority_to_str(p: &IssuePriority) -> (r: &'static str)
    ensures
        r@ == priority_text(*p),
{
    match p {
        IssuePriority::Urgent => "urgent",
        IssuePriority::High => "high",
        IssuePriority::Medium => "medium",
        IssuePriority::Low => "low",
    }
}

/// The priority of a stored text; unknown texts and no text give none.
pub fn parse_priority(s: Option<&str>) -> (r: Option<IssuePriority>)
    ensures
        r == match s {
            Some(t) => priority_of_text(t@),
            None => None,
        },
{
    match s {
        None => None,
        Some(t) => {
            let cs = chars_of(t);
            proof {
                reveal_strlit("urgent");
                reveal_strlit("high");
                reveal_strlit("medium");
                reveal_strlit("low");
            }
            if cs.len() == 6 && cs[0] == 'u' && cs[1] == 'r' && cs[2] == 'g' && cs[3] == 'e'
                && cs[4] == 'n' && cs[5] == 't' {
                assert(t@ =~= "urgent"@);
                Some(IssuePriority::Urgent)
            } else if cs.len() == 4 && cs[0] == 'h' && cs[1] == 'i' && cs[2] == 'g' && cs[3]
                == 'h' {
                assert(t@ =~= "high"@);
                Some(IssuePriority::High)
            } else if cs.len() == 6 && cs[0] == 'm' && cs[1] == 'e' && cs[2] == 'd' && cs[3]
                == 'i' && cs[4] == 'u' && cs[5] == 'm' {
                assert(t@ =~= "medium"@);
                Some(IssuePriority::Medium)
            } else if cs.len() == 3 && cs[0] == 'l' && cs[1] == 'o' && cs[2] == 'w' {
                assert(t@ =~= "low"@);
                Some(IssuePriority::Low)
            } else {
                None
            }
        },
    }
}

/// The placeholder `$k` as text.
fn placeholder_string(k: u64) -> (r: String)
    ensures
        r@ == placeholder(k as nat),
{
    let mut r = String::new();
    push_str(&mut r, "$");
    let d = decimal_string(k);
    push_str(&mut r, d.as_str());
    r
}

/// `prefix` followed by the placeholder `$k` and `suffix`.
fn clause_with(prefix: &str, k: u64, suffix: &str) -> (r: String)
    ensures
        r@ == prefix@ + placeholder(k as nat) + suffix@,
{
    let mut r = String::new();
    push_str(&mut r, prefix);
    let p = placeholder_string(k);
    push_str(&mut r, p.as_str());
    push_str(&mut r, suffix);
    r
}

/// The clause that lists status ids: `status_id IN ($start, ...)`.
fn status_in_clause(start: u64, n: usize) -> (r: String)
    requires
        start + n <= u64::MAX,
    ensures
        r@ == "status_id IN ("@ + join(placeholders(start as nat, n as nat), ", "@) + ")"@,
{
    let mut ph: Vec<String> = Vec::new();
    let mut j: usize = 0;
    while j < n
        invariant
            j <= n,
            start + n <= u64::MAX,
            ph@.map_values(|s: String| s@) =~= placeholders(start as nat, j as nat),
        decreases n - j,
    {
        let p = placeholder_string(start + j as u64);
        let ghost before = ph@.map_values(|s: String| s@);
        ph.push(p);
        assert(ph@.map_values(|s: String| s@) =~= before.push(placeholder((start + j) as nat)));
        j += 1;
    }
    let list = join_strings(&ph, ", ");
    let mut r = String::new();
    push_str(&mut r, "status_id IN (");
    push_str(&mut r, list.as_str());
    push_str(&mut r, ")");
    r
}

/// The text pattern of a search: the text between `%` wildcards.
fn like_pattern(s: &str) -> (r: String)
    ensures
        r@ == "%"@ + s@ + "%"@,
{
    let mut r = String::new();
    push_str(&mut r, "%");
    push_str(&mut r, s);
    push_str(&mut r, "%");
    r
}

/// An owned copy of a list of ids as bound values.
fn uuid_binds(ids: &Vec<u128>) -> (r: Vec<SqlValue>)
    ensures
        r@.map_values(|v: SqlValue| v@) =~= ids@.map_values(|u: u128| SqlArg::Uuid(u)),
{
    let mut r: Vec<SqlValue> = Vec::new();
    let mut i: usize = 0;
    while i < ids.len()
        invariant
            i <= ids.len(),
            r@.map_values(|v: SqlValue| v@) =~= ids@.subrange(0, i as int).map_values(
                |u: u128| SqlArg::Uuid(u),
            ),
        decreases ids.len() - i,
    {
        let ghost before = r@.map_values(|v: SqlValue| v@);
        r.push(SqlValue::Uuid(ids[i]));
        assert(r@.map_values(|v: SqlValue| v@) =~= before.push(SqlArg::Uuid(ids@[i as int])));
        assert(ids@.subrange(0, i + 1) =~= ids@.subrange(0, i as int).push(ids@[i as int]));
        i += 1;
    }
    assert(ids@.subrange(0, ids.len() as int) =~= ids@);
    r
}

/// The values bound to the placeholders of a search, in order.
fn search_bind_values(req: &SearchIssuesRequest) -> (r: Vec<SqlValue>)
    ensures
        r@.map_values(|v: SqlValue| v@) =~= search_binds(*req),
{
    let mut binds: Vec<SqlValue> = Vec::new();
    binds.push(SqlValue::Uuid(req.project_id));
    let ghost a = seq![SqlArg::Uuid(req.project_id)];
    assert(binds@.map_values(|v: SqlValue| v@) =~= a);
    if let Some(s) = req.status_id {
        binds.push(SqlValue::Uuid(s));
    }
    let ghost b = a + status_binds(*req);
    assert(binds@.map_values(|v: SqlValue| v@) =~= b);
    if let Some(ids) = &req.status_ids {
        let mut more = uuid_binds(ids);
        binds.append(&mut more);
    }
    let ghost c = b + ids_binds(*req);
    assert(binds@.map_values(|v: SqlValue| v@) =~= c);
    if let Some(p) = &req.priority {
        let t = priority_to_str(p);
        let mut s = String::new();
        push_str(&mut s, t);
        binds.push(SqlValue::Text(s));
    }
    let ghost d = c + priority_binds(*req);
    assert(binds@.map_values(|v: SqlValue| v@) =~= d);
    if let Some(p) = req.parent_issue_id {
        binds.push(SqlValue::Uuid(p));
    }
    let ghost e = d + parent_binds(*req);
    assert(binds@.map_values(|v: SqlValue| v@) =~= e);
    if let Some(s) = &req.search {
        binds.push(SqlValue::Text(like_pattern(s.as_str())));
    }
    let ghost f = e + pattern_binds(*req);
    assert(binds@.map_values(|v: SqlValue| v@) =~= f);
    if let Some(s) = &req.simple_id {
        binds.push(SqlValue::Text(s.clone()));
    }
    binds
}

/// The `WHERE` clauses of a search, in order.
fn search_clause_texts(req: &SearchIssuesRequest) -> (r: Vec<String>)
    requires
        id_count(*req) + 8 <= u32::MAX,
    ensures
        r@.map_values(|s: String| s@) =~= search_clauses(*req),
{
    proof {
        reveal_strlit("");
        assert(""@ =~= Seq::<char>::empty());
    }
    let mut clauses: Vec<String> = Vec::new();
    let mut first = String::new();
    push_str(&mut first, "project_id = $1");
    clauses.push(first);
    let mut bind_idx: u64 = 2;
    let ghost a = seq!["project_id = $1"@];
    assert(clauses@.map_values(|s: String| s@) =~= a);
    if req.status_id.is_some() {
        clauses.push(clause_with("status_id = ", bind_idx, ""));
        bind_idx += 1;
    }
    let ghost b = a + clause_if(req.status_id is Some, "status_id = "@ + placeholder(2));
    assert(bind_idx == ids_index(*req));
    assert(clauses@.map_values(|s: String| s@) =~= b);
    if let Some(ids) = &req.status_ids {
        if ids.len() > 0 {
            clauses.push(status_in_clause(bind_idx, ids.len()));
            bind_idx += ids.len() as u64;
        }
    }
    let ghost c = b + clause_if(
        id_count(*req) > 0,
        "status_id IN ("@ + join(placeholders(ids_index(*req), id_count(*req)), ", "@) + ")"@,
    );
    assert(bind_idx == priority_index(*req));
    assert(clauses@.map_values(|s: String| s@) =~= c);
    if req.priority.is_some() {
        clauses.push(clause_with("priority = ", bind_idx, ""));
        bind_idx += 1;
    }
    let ghost d = c + clause_if(
        req.priority is Some,
        "priority = "@ + placeholder(priority_index(*req)),
    );
    assert(bind_idx == parent_index(*req));
    assert(clauses@.map_values(|s: String| s@) =~= d);
    if req.parent_issue_id.is_some() {
        clauses.push(clause_with("parent_issue_id = ", bind_idx, ""));
        bind_idx += 1;
    }
    let ghost e = d + clause_if(
        req.parent_issue_id is Some,
        "parent_issue_id = "@ + placeholder(parent_index(*req)),
    );
    assert(bind_idx == search_index(*req));
    assert(clauses@.map_values(|s: String| s@) =~= e);
    if req.search.is_some() {
        let mut t = clause_with("(title LIKE ", bind_idx, " OR description LIKE ");
        let p = placeholder_string(bind_idx);
        push_str(&mut t, p.as_str());
        push_str(&mut t, ")");
        clauses.push(t);
        bind_idx += 1;
    }
    let ghost f = e + clause_if(
        req.search is Some,
        "(title LIKE "@ + placeholder(search_index(*req)) + " OR description LIKE "@ + placeholder(
            search_index(*req),
        ) + ")"@,
    );
    assert(bind_idx == simple_id_index(*req));
    assert(clauses@.map_values(|s: String| s@) =~= f);
    if req.simple_id.is_some() {
        clauses.push(clause_with("simple_id = ", bind_idx, ""));
    }
    clauses
}

impl LocalIssue {
    /// The statements and bound values of an issue search. The `WHERE`
    /// clauses number their placeholders in the order in which the values are
    /// bound, starting from `$2` after the project id.
    pub fn search_query(req: &SearchIssuesRequest) -> (r: IssueSearchQuery)
        requires
            id_count(*req) + 8 <= u32::MAX,
        ensures
            r.count_sql@ == "SELECT COUNT(*) as cnt FROM issues WHERE "@ + search_where(*req),
            r.data_sql@ == ISSUE_SELECT@ + " WHERE "@ + search_where(*req) + " ORDER BY "@
                + sort_column(req.sort_field) + " "@ + sort_keyword(req.sort_direction)
                + " LIMIT "@ + decimal(page_limit(req.limit) as nat) + " OFFSET "@ + decimal(
                page_offset(req.offset) as nat,
            ),
            r.binds@.map_values(|v: SqlValue| v@) =~= search_binds(*req),
            r.limit == page_limit(req.limit),
            r.offset == page_offset(req.offset),
    {
        let clauses = search_clause_texts(req);
        let where_sql = join_strings(&clauses, " AND ");
        let sort_field = match req.sort_field {
            Some(IssueSortField::Priority) => "priority",
            Some(IssueSortField::CreatedAt) => "created_at",
            Some(IssueSortField::UpdatedAt) => "updated_at",
            Some(IssueSortField::Title) => "title",
            _ => "sort_order",
        };
        let sort_dir = match req.sort_direction {
            Some(SortDirection::Desc) => "DESC",
            _ => "ASC",
        };
        let limit = match req.limit {
            Some(l) => l,
            None => 100,
        };
        let offset = match req.offset {
            Some(o) => o,
            None => 0,
        };
        let mut count_sql = String::new();
        push_str(&mut count_sql, "SELECT COUNT(*) as cnt FROM issues WHERE ");
        push_str(&mut count_sql, where_sql.as_str());
        let mut data_sql = String::new();
        push_str(&mut data_sql, ISSUE_SELECT);
        push_str(&mut data_sql, " WHERE ");
        push_str(&mut data_sql, where_sql.as_str());
        push_str(&mut data_sql, " ORDER BY ");
        push_str(&mut data_sql, sort_field);
        push_str(&mut data_sql, " ");
        push_str(&mut data_sql, sort_dir);
        push_str(&mut data_sql, " LIMIT ");
        let l = decimal_string(limit as u64);
        push_str(&mut data_sql, l.as_str());
        push_str(&mut data_sql, " OFFSET ");
        let o = decimal_string(offset as u64);
        push_str(&mut data_sql, o.as_str());
        let binds = search_bind_values(req);
        IssueSearchQuery { count_sql, data_sql, binds, limit, offset }
    }

    /// The statement listing a project's issues in board order.
    pub fn by_project_sql() -> (r: String)
        ensures
            r@ == ISSUE_SELECT@ + " WHERE project_id = $1 ORDER BY sort_order ASC, created_at ASC"@,
    {
        let mut r = String::new();
        push_str(&mut r, ISSUE_SELECT);
        push_str(&mut r, " WHERE project_id = $1 ORDER BY sort_order ASC, created_at ASC");
        r
    }

    /// The statement reading one issue by id.
    pub fn by_id_sql() -> (r: String)
        ensures
            r@ == ISSUE_SELECT@ + " WHERE id = $1"@,
    {
        let mut r = String::new();
        push_str(&mut r, ISSUE_SELECT);
        push_str(&mut r, " WHERE id = $1");
        r
    }

    /// The short id of a new issue from its project's name (none when the
    /// project is missing) and its number in the project.
    pub fn simple_id(project_name: Option<&str>, issue_number: i32) -> (r: String)
        ensures
            r@ == simple_id_text(
                match project_name {
                    Some(n) => Some(n@),
                    None => None,
                },
                issue_number,
            ),
    {
        let mut r = match project_name {
            Some(name) => {
                let prefix = first_alphanumeric_chars(name, 3);
                to_uppercase(prefix.as_str())
            },
            None => {
                let mut p = String::new();
                push_str(&mut p, "PRJ");
                p
            },
        };
        push_str(&mut r, "-");
        if issue_number < 0 {
            push_str(&mut r, "-");
            let d = decimal_string((-(issue_number as i64)) as u64);
            push_str(&mut r, d.as_str());
        } else {
            let d = decimal_string(issue_number as u64);
            push_str(&mut r, d.as_str());
        }
        r
    }
}

/// The first `n` alphanumeric characters of `s`.
fn first_alphanumeric_chars(s: &str, n: usize) -> (r: String)
    ensures
        r@ == first_alphanumeric(s@, n as nat),
{
    let cs = chars_of(s);
    let mut r = String::new();
    let mut taken: usize = 0;
    let mut i: usize = 0;
    assert(cs@.subrange(0, cs@.len() as int) =~= cs@);
    while i < cs.len() && taken < n
        invariant
            i <= cs.len(),
            taken <= n,
            cs@ == s@,
            first_alphanumeric(s@, n as nat) == r@ + first_alphanumeric(
                cs@.subrange(i as int, cs@.len() as int),
                (n - taken) as nat,
            ),
        decreases cs.len() - i,
    {
        let ghost rest = cs@.subrange(i as int, cs@.len() as int);
        assert(rest[0] == cs@[i as int]);
        assert(rest.drop_first() =~= cs@.subrange(i + 1, cs@.len() as int));
        if is_alphanumeric(cs[i]) {
            let ghost before = r@;
            push_char(&mut r, cs[i]);
            taken += 1;
            assert(before + (seq![cs@[i as int]] + first_alphanumeric(rest.drop_first(), (n - taken) as nat)) =~= r@ + first_alphanumeric(rest.drop_first(), (n - taken) as nat));
        }
        i += 1;
    }
    assert(first_alphanumeric(cs@.subrange(i as int, cs@.len() as int), (n - taken) as nat)
        =~= Seq::<char>::empty());
    r
}

/// An owned text that may be absent, as a bound value.
fn text_value(o: &Option<String>) -> (r: SqlValue)
    ensures
        r@ == text_or_null(*o),
{
    match o {
        Some(t) => SqlValue::Text(t.clone()),
        None => SqlValue::Null,
    }
}

/// The new text of a nullable text field, and its clear flag.
fn text_patch_values(f: &Option<Option<String>>) -> (r: (SqlValue, SqlValue))
    ensures
        r.0@ == text_patch(*f),
        r.1@ == clear_flag(*f),
{
    match f {
        Some(Some(t)) => (SqlValue::Text(t.clone()), SqlValue::Bool(false)),
        Some(None) => (SqlValue::Null, SqlValue::Bool(true)),
        None => (SqlValue::Null, SqlValue::Bool(false)),
    }
}

impl LocalIssue {
    /// The values bound to the update statement `ISSUE_UPDATE` for the issue
    /// `id`, in placeholder order: each nullable field gives its new value
    /// (null unless one is set) and a flag that is set when it is cleared.
    pub fn update_binds(id: u128, req: &UpdateIssueRequest) -> (r: Vec<SqlValue>)
        ensures
            r@.map_values(|v: SqlValue| v@) =~= update_binds(id, *req),
    {
        let status = match req.status_id {
            Some(u) => SqlValue::Uuid(u),
            None => SqlValue::Null,
        };
        let (desc, desc_flag) = text_patch_values(&req.description);
        let (prio, prio_flag) = match &req.priority {
            Some(Some(p)) => {
                let mut t = String::new();
                push_str(&mut t, priority_to_str(p));
                (SqlValue::Text(t), SqlValue::Bool(false))
            },
            Some(None) => (SqlValue::Null, SqlValue::Bool(true)),
            None => (SqlValue::Null, SqlValue::Bool(false)),
        };
        let (start, start_flag) = text_patch_values(&req.start_date);
        let (target, target_flag) = text_patch_values(&req.target_date);
        let (done, done_flag) = text_patch_values(&req.completed_at);
        let sort = match req.sort_order {
            Some(b) => SqlValue::RealBits(b),
            None => SqlValue::Null,
        };
        let (parent, parent_flag) = match req.parent_issue_id {
            Some(Some(u)) => (SqlValue::Uuid(u), SqlValue::Bool(false)),
            Some(None) => (SqlValue::Null, SqlValue::Bool(true)),
            None => (SqlValue::Null, SqlValue::Bool(false)),
        };
        let (parent_sort, parent_sort_flag) = match req.parent_issue_sort_order {
            Some(Some(b)) => (SqlValue::RealBits(b), SqlValue::Bool(false)),
            Some(None) => (SqlValue::Null, SqlValue::Bool(true)),
            None => (SqlValue::Null, SqlValue::Bool(false)),
        };
        let title = text_value(&req.title);
        let meta = text_value(&req.extension_metadata);
        let r = vec![
            SqlValue::Uuid(id),
            status,
            title,
            desc,
            desc_flag,
            prio,
            prio_flag,
            start,
            start_flag,
            target,
            target_flag,
            done,
            done_flag,
            sort,
            parent,
            parent_flag,
            parent_sort,
            parent_sort_flag,
            meta,
        ];
        r
    }
}

/// A nullable field of an update, split into the new value (when one is
/// set) and whether the field is set to null.
pub fn split_patch<T>(field: Option<Option<T>>) -> (r: (Option<T>, bool))
    ensures
        r.0 == match field {
            Some(Some(v)) => Some(v),
            _ => None,
        },
        r.1 == (field == Some(None::<T>)),
{
    match field {
        Some(Some(v)) => (Some(v), false),
        Some(None) => (None, true),
        None => (None, false),
    }
}

/// The nullable priority field of an update, as stored text and null flag.
pub fn priority_patch(field: Option<Option<IssuePriority>>) -> (r: (Option<&'static str>, bool))
    ensures
        match field {
            Some(Some(p)) => r.0 matches Some(t) && t@ == priority_text(p),
            _ => r.0 is None,
        },
        r.1 == (field == Some(None::<IssuePriority>)),
{
    match field {
        Some(Some(p)) => (Some(priority_to_str(&p)), false),
        Some(None) => (None, true),
        None => (None, false),
    }
}

/// Each filter's placeholder is bound to that filter's value: the value at
/// position `k - 1` of the bound values is the one for placeholder `$k`, and
/// every placeholder that the clauses use has a value.
pub proof fn lemma_search_placeholders_bound(req: SearchIssuesRequest)
    ensures
        search_binds(req).len() + 1 == next_placeholder(req),
        search_binds(req)[0] == SqlArg::Uuid(req.project_id),
        req.status_id matches Some(s) ==> search_binds(req)[1] == SqlArg::Uuid(s),
        req.status_ids matches Some(ids) ==> forall|j: int|
            0 <= j < ids@.len() ==> search_binds(req)[ids_index(req) + j - 1] == SqlArg::Uuid(
                #[trigger] ids@[j],
            ),
        req.priority matches Some(p) ==> search_binds(req)[priority_index(req) - 1]
            == SqlArg::Text(priority_text(p)),
        req.parent_issue_id matches Some(p) ==> search_binds(req)[parent_index(req) - 1]
            == SqlArg::Uuid(p),
        req.search matches Some(s) ==> search_binds(req)[search_index(req) - 1] == SqlArg::Text(
            "%"@ + s@ + "%"@,
        ),
        req.simple_id matches Some(s) ==> search_binds(req)[simple_id_index(req) - 1]
            == SqlArg::Text(s@),
{
    let all = seq![SqlArg::Uuid(req.project_id)] + status_binds(req) + ids_binds(req)
        + priority_binds(req) + parent_binds(req) + pattern_binds(req) + simple_id_binds(req);
    assert(ids_binds(req).len() == id_count(req));
    if let Some(ids) = req.status_ids {
        assert forall|j: int| 0 <= j < ids@.len() implies all[ids_index(req) + j - 1]
            == SqlArg::Uuid(#[trigger] ids@[j]) by {
            assert(all[ids_index(req) + j - 1] == ids_binds(req)[j]);
        }
    }
}

/// The stored text of a priority reads back as that priority.
pub proof fn lemma_priority_text_round_trip(p: IssuePriority)
    ensures
        priority_of_text(priority_text(p)) == Some(p),
{
    reveal_strlit("urgent");
    reveal_strlit("high");
    reveal_strlit("medium");
    reveal_strlit("low");
    assert("urgent"@[0] != "high"@[0]);
    assert("urgent"@[0] != "medium"@[0]);
    assert("urgent"@[0] != "low"@[0]);
    assert("high"@[0] != "medium"@[0]);
    assert("high"@[0] != "low"@[0]);
    assert("medium"@[0] != "low"@[0]);
}

/// `COALESCE(v, current)`: the bound value, or the column's current value
/// when the bound value is null.
pub open spec fn sql_coalesce(v: SqlArg, current: SqlArg) -> SqlArg {
    match v {
        SqlArg::Null => current,
        _ => v,
    }
}

/// `CASE WHEN v IS NOT NULL THEN v ELSE CASE WHEN flag THEN NULL ELSE current
/// END END`: the bound value, else null when the flag is set, else the
/// column's current value.
pub open spec fn sql_set_or_clear(v: SqlArg, flag: SqlArg, current: SqlArg) -> SqlArg {
    match v {
        SqlArg::Null => if flag == SqlArg::Bool(true) {
            SqlArg::Null
        } else {
            current
        },
        _ => v,
    }
}

/// The update statement, run with the values bound for a request, selects
/// the issue by its id (`$1`) and gives each column the value that the
/// request asks for: a field left out keeps the column's current value, a
/// given field sets it (the title to the given title), and a nullable field
/// given as `Some(None)` clears it.
pub proof fn lemma_update_applies_request(id: u128, req: UpdateIssueRequest, current: SqlArg)
    ensures
        update_binds(id, req).len() == 19,
        update_binds(id, req)[0] == SqlArg::Uuid(id),
        sql_coalesce(update_binds(id, req)[1], current) == (match req.status_id {
            Some(v) => SqlArg::Uuid(v),
            None => current,
        }),
        sql_coalesce(update_binds(id, req)[2], current) == (match req.title {
            Some(v) => SqlArg::Text(v@),
            None => current,
        }),
        sql_set_or_clear(update_binds(id, req)[3], update_binds(id, req)[4], current) == (match req.description {
            Some(Some(v)) => SqlArg::Text(v@),
            Some(None) => SqlArg::Null,
            None => current,
        }),
        sql_set_or_clear(update_binds(id, req)[5], update_binds(id, req)[6], current) == (match req.priority {
            Some(Some(v)) => SqlArg::Text(priority_text(v)),
            Some(None) => SqlArg::Null,
            None => current,
        }),
        sql_set_or_clear(update_binds(id, req)[7], update_binds(id, req)[8], current) == (match req.start_date {
            Some(Some(v)) => SqlArg::Text(v@),
            Some(None) => SqlArg::Null,
            None => current,
        }),
        sql_set_or_clear(update_binds(id, req)[9], update_binds(id, req)[10], current) == (match req.target_date {
            Some(Some(v)) => SqlArg::Text(v@),
            Some(None) => SqlArg::Null,
            None => current,
        }),
        sql_set_or_clear(update_binds(id, req)[11], update_binds(id, req)[12], current) == (match req.completed_at {
            Some(Some(v)) => SqlArg::Text(v@),
            Some(None) => SqlArg::Null,
            None => current,
        }),
        sql_coalesce(update_binds(id, req)[13], current) == (match req.sort_order {
            Some(v) => SqlArg::RealBits(v),
            None => current,
        }),
        sql_set_or_clear(update_binds(id, req)[14], update_binds(id, req)[15], current) == (match req.parent_issue_id {
            Some(Some(v)) => SqlArg::Uuid(v),
            Some(None) => SqlArg::Null,
            None => current,
        }),
        sql_set_or_clear(update_binds(id, req)[16], update_binds(id, req)[17], current) == (match req.parent_issue_sort_order {
            Some(Some(v)) => SqlArg::RealBits(v),
            Some(None) => SqlArg::Null,
            None => current,
        }),
        sql_coalesce(update_binds(id, req)[18], current) == (match req.extension_metadata {
            Some(v) => SqlArg::Text(v@),
            None => current,
        }),
{
}

} // verus!
