//! JQL queries and REST paths that the client requests.
use vstd::prelude::*;
use vstd::utf8::encode_utf8;

use crate::error::{chars_contain_seq, contains_seq};
use crate::text::{
    all_ascii_digits, all_ascii_uppercase, chars_contain, chars_find, chars_of, decimal,
    decimal_string, find_char, lemma_find_char_bounds, push_char, push_str, string_of, trim,
    trim_chars,
};

verus! {

broadcast use vstd::string::group_string_axioms;

// ---------------------------------------------------------------------------
// Specification
// ---------------------------------------------------------------------------

/// Whether a string looks like a Jira issue key (e.g. `DEV-170227`): upper-case
/// ASCII letters, a `-`, then ASCII digits, both parts non-empty.
pub open spec fn issue_key_shape(s: Seq<char>) -> bool {
    match find_char(s, '-') {
        Some(i) => {
            let prefix = s.subrange(0, i);
            let number = s.subrange(i + 1, s.len() as int);
            &&& prefix.len() > 0
            &&& all_ascii_uppercase(prefix)
            &&& number.len() > 0
            &&& all_ascii_digits(number)
        },
        None => false,
    }
}

/// `s` with each `"` escaped as `\"`.
pub open spec fn escape_quotes(s: Seq<char>) -> Seq<char>
    decreases s.len(),
{
    if s.len() == 0 {
        Seq::empty()
    } else {
        let piece = if s.last() == '"' {
            seq!['\\', '"']
        } else {
            seq![s.last()]
        };
        escape_quotes(s.drop_last()) + piece
    }
}

/// A character allowed in a project key that scopes a text search.
pub open spec fn project_key_char(c: char) -> bool {
    ('a' <= c && c <= 'z') || ('A' <= c && c <= 'Z') || ('0' <= c && c <= '9') || c == '_'
}

/// Whether a project key may scope a text search.
pub open spec fn project_key_ok(k: Seq<char>) -> bool {
    forall|i: int| 0 <= i < k.len() ==> project_key_char(#[trigger] k[i])
}

/// The JQL for a search box query: raw JQL passes through, an issue key
/// becomes a key lookup, anything else a text search, optionally scoped to a
/// project, newest first.
pub open spec fn search_jql(query: Seq<char>, project_key: Option<Seq<char>>) -> Seq<char> {
    let t = trim(query);
    if t.contains('=') || contains_seq(t, "ORDER BY"@) {
        t
    } else if issue_key_shape(t) {
        "key = \""@ + t + "\""@
    } else {
        let base = "text ~ \""@ + escape_quotes(t) + "\""@;
        let scoped = match project_key {
            Some(k) => if project_key_ok(k) {
                "project = \""@ + k + "\" AND "@ + base
            } else {
                base
            },
            None => base,
        };
        scoped + " ORDER BY updated DESC"@
    }
}

/// The number of search results requested: 20 by default, at most 50.
pub open spec fn result_limit(requested: Option<u32>) -> u32 {
    let n = match requested {
        Some(n) => n,
        None => 20,
    };
    if n < 50 {
        n
    } else {
        50
    }
}

/// A byte left as it is by URL encoding: ASCII alphanumerics and `-_.~`.
pub open spec fn unreserved_byte(b: u8) -> bool {
    (48 <= b && b <= 57) || (65 <= b && b <= 90) || (97 <= b && b <= 122) || b == 45 || b == 46
        || b == 95 || b == 126
}

/// The upper-case hexadecimal digit for `d < 16`.
pub open spec fn hex_digit(d: u8) -> char {
    if d < 10 {
        (48 + d) as u8 as char
    } else {
        (55 + d) as u8 as char
    }
}

/// Percent-encoding of bytes: unreserved bytes as themselves, every other byte
/// as `%` and two upper-case hexadecimal digits.
pub open spec fn percent_encode(bytes: Seq<u8>) -> Seq<char>
    decreases bytes.len(),
{
    if bytes.len() == 0 {
        Seq::empty()
    } else {
        let b = bytes[0];
        let piece = if unreserved_byte(b) {
            seq![b as char]
        } else {
            seq!['%', hex_digit(b >> 4), hex_digit(b & 15)]
        };
        piece + percent_encode(bytes.drop_first())
    }
}

/// The fields requested for each issue of a search.
pub open spec fn search_fields() -> Seq<char> {
    "summary,description,status,priority,issuetype,assignee,reporter,created,updated,labels"@
}

// ---------------------------------------------------------------------------
// Outside call
// ---------------------------------------------------------------------------

/// `urlencoding::encode`: percent-encodes the UTF-8 bytes of the text.
#[verifier::external_body]
pub(crate) fn url_encode(s: &str) -> (r: String)
    ensures
        r@ == percent_encode(encode_utf8(s@)),
{
    urlencoding::encode(s).into_owned()
}

// ---------------------------------------------------------------------------
// Implementation
// ---------------------------------------------------------------------------

/// Check if a string looks like a Jira issue key (e.g. `DEV-170227`, `PROJ-1`).
pub fn is_issue_key(s: &str) -> (r: bool)
    ensures
        r == issue_key_shape(s@),
{
    let cs = chars_of(s);
    let dash = match chars_find(cs.as_slice(), '-') {
        Some(i) => i,
        None => {
            return false;
        },
    };
    proof {
        lemma_find_char_bounds(s@, '-');
        assert(find_char(s@, '-') == Some(dash as int));
    }
    if dash == 0 || dash + 1 >= cs.len() {
        return false;
    }
    let mut i: usize = 0;
    while i < dash
        invariant
            dash < cs.len(),
            i <= dash,
            cs@ == s@,
            find_char(s@, '-') == Some(dash as int),
            all_ascii_uppercase(cs@.subrange(0, i as int)),
        decreases dash - i,
    {
        if !('A' <= cs[i] && cs[i] <= 'Z') {
            assert(cs@.subrange(0, dash as int)[i as int] == cs@[i as int]);
            return false;
        }
        i += 1;
    }
    let mut j: usize = dash + 1;
    while j < cs.len()
        invariant
            dash < j <= cs.len(),
            cs@ == s@,
            find_char(s@, '-') == Some(dash as int),
            all_ascii_uppercase(cs@.subrange(0, dash as int)),
            all_ascii_digits(cs@.subrange(dash + 1, j as int)),
        decreases cs.len() - j,
    {
        if !('0' <= cs[j] && cs[j] <= '9') {
            assert(cs@.subrange(dash + 1, cs@.len() as int)[j - dash - 1] == cs@[j as int]);
            return false;
        }
        j += 1;
    }
    true
}

/// `s` with each `"` escaped as `\"`.
pub fn escape_double_quotes(s: &[char]) -> (r: String)
    ensures
        r@ == escape_quotes(s@),
{
    let mut r = String::new();
    let mut i: usize = 0;
    while i < s.len()
        invariant
            i <= s.len(),
            r@ == escape_quotes(s@.subrange(0, i as int)),
        decreases s.len() - i,
    {
        let ghost prev = r@;
        if s[i] == '"' {
            push_char(&mut r, '\\');
            push_char(&mut r, '"');
        } else {
            push_char(&mut r, s[i]);
        }
        proof {
            let sub = s@.subrange(0, i + 1);
            assert(sub.drop_last() =~= s@.subrange(0, i as int));
            assert(sub.last() == s@[i as int]);
            if s@[i as int] == '"' {
                assert(r@ =~= prev + seq!['\\', '"']);
            } else {
                assert(r@ =~= prev + seq![s@[i as int]]);
            }
        }
        i += 1;
    }
    assert(s@.subrange(0, s@.len() as int) =~= s@);
    r
}

/// Whether every character may appear in a scoping project key.
fn project_key_allowed(k: &str) -> (r: bool)
    ensures
        r == project_key_ok(k@),
{
    let cs = chars_of(k);
    let mut i: usize = 0;
    while i < cs.len()
        invariant
            i <= cs.len(),
            cs@ == k@,
            forall|j: int| 0 <= j < i ==> project_key_char(#[trigger] cs@[j]),
        decreases cs.len() - i,
    {
        let c = cs[i];
        if !(('a' <= c && c <= 'z') || ('A' <= c && c <= 'Z') || ('0' <= c && c <= '9') || c
            == '_') {
            return false;
        }
        i += 1;
    }
    true
}

/// The JQL sent for a search box query.
pub fn build_search_jql(query: &str, project_key: Option<&str>) -> (r: String)
    ensures
        r@ == search_jql(
            query@,
            match project_key {
                Some(k) => Some(k@),
                None => None,
            },
        ),
{
    let cs = chars_of(query);
    let t = trim_chars(cs.as_slice());
    let trimmed = string_of(t.as_slice());
    if chars_contain(t.as_slice(), '=') || chars_contain_seq(t.as_slice(), "ORDER BY") {
        return trimmed;
    }
    if is_issue_key(trimmed.as_str()) {
        let mut r = String::new();
        push_str(&mut r, "key = \"");
        push_str(&mut r, trimmed.as_str());
        push_str(&mut r, "\"");
        assert(r@ =~= "key = \""@ + trimmed@ + "\""@);
        return r;
    }
    let escaped = escape_double_quotes(t.as_slice());
    let mut base = String::new();
    push_str(&mut base, "text ~ \"");
    push_str(&mut base, escaped.as_str());
    push_str(&mut base, "\"");
    assert(base@ =~= "text ~ \""@ + escaped@ + "\""@);
    let mut jql = match project_key {
        Some(k) => if project_key_allowed(k) {
            let mut scoped = String::new();
            push_str(&mut scoped, "project = \"");
            push_str(&mut scoped, k);
            push_str(&mut scoped, "\" AND ");
            push_str(&mut scoped, base.as_str());
            assert(scoped@ =~= "project = \""@ + k@ + "\" AND "@ + base@);
            scoped
        } else {
            base
        },
        None => base,
    };
    push_str(&mut jql, " ORDER BY updated DESC");
    jql
}

/// The number of search results requested: 20 by default, at most 50.
pub fn effective_max_results(requested: Option<u32>) -> (r: u32)
    ensures
        r == result_limit(requested),
{
    let n = match requested {
        Some(n) => n,
        None => 20,
    };
    if n < 50 {
        n
    } else {
        50
    }
}

/// The REST path of a JQL search.
pub fn search_path(jql: &str, max_results: u32) -> (r: String)
    ensures
        r@ == "search/jql?jql="@ + percent_encode(encode_utf8(jql@)) + "&maxResults="@ + decimal(
            max_results as nat,
        ) + "&fields="@ + search_fields(),
{
    let encoded = url_encode(jql);
    let count = decimal_string(max_results as u64);
    let mut r = String::new();
    push_str(&mut r, "search/jql?jql=");
    push_str(&mut r, encoded.as_str());
    push_str(&mut r, "&maxResults=");
    push_str(&mut r, count.as_str());
    push_str(&mut r, "&fields=");
    push_str(
        &mut r,
        "summary,description,status,priority,issuetype,assignee,reporter,created,updated,labels",
    );
    assert(r@ =~= "search/jql?jql="@ + encoded@ + "&maxResults="@ + count@ + "&fields="@
        + search_fields());
    r
}

/// The REST path of an issue.
pub fn issue_path(issue_key: &str) -> (r: String)
    ensures
        r@ == "issue/"@ + issue_key@,
{
    let mut r = String::new();
    push_str(&mut r, "issue/");
    push_str(&mut r, issue_key);
    assert(r@ =~= "issue/"@ + issue_key@);
    r
}

/// The REST path of an issue's transitions.
pub fn transitions_path(issue_key: &str) -> (r: String)
    ensures
        r@ == "issue/"@ + issue_key@ + "/transitions"@,
{
    let mut r = issue_path(issue_key);
    push_str(&mut r, "/transitions");
    r
}

/// The REST path that lists an issue's comments, newest first, at most 50.
pub fn comments_path(issue_key: &str) -> (r: String)
    ensures
        r@ == "issue/"@ + issue_key@ + "/comment?orderBy=-created&maxResults=50"@,
{
    let mut r = issue_path(issue_key);
    push_str(&mut r, "/comment?orderBy=-created&maxResults=50");
    r
}

/// The REST path that adds a comment to an issue.
pub fn add_comment_path(issue_key: &str) -> (r: String)
    ensures
        r@ == "issue/"@ + issue_key@ + "/comment"@,
{
    let mut r = issue_path(issue_key);
    push_str(&mut r, "/comment");
    r
}

} // verus!
