//! Jira site URLs: validation against SSRF, normalisation, and the URLs built
//! from a site.
use vstd::prelude::*;

use crate::text::{
    chars_end_with, chars_find, chars_of, chars_start_with, find_char, lemma_find_char_bounds,
    push_str, string_of, to_lowercase, trim, trim_chars, trim_end_char, trim_end_char_chars,
    trim_start_char, trim_start_char_chars, text_lowercase,
};

verus! {

/// The part of `s` before the first `c` (all of `s` when `c` does not occur).
pub open spec fn before_char(s: Seq<char>, c: char) -> Seq<char> {
    match find_char(s, c) {
        Some(i) => s.subrange(0, i),
        None => s,
    }
}

/// The part of `s` after the last `c` (all of `s` when `c` does not occur).
pub open spec fn after_last_char(s: Seq<char>, c: char) -> Seq<char>
    decreases s.len(),
{
    if s.len() == 0 {
        s
    } else if s.last() == c {
        Seq::empty()
    } else {
        after_last_char(s.drop_last(), c).push(s.last())
    }
}

/// The authority of an `https://` URL: the text after the scheme up to the
/// first `/`, `?`, `#` or `\` (which browsers and URL parsers also take as a
/// path separator).
pub open spec fn url_authority(url: Seq<char>) -> Seq<char> {
    before_char(
        before_char(before_char(before_char(url.subrange(8, url.len() as int), '/'), '?'), '#'),
        '\\',
    )
}

/// The lower-cased host of an `https://` URL: the authority without its user
/// information (up to the last `@`) and without its port (from the first `:`).
pub open spec fn site_host(url: Seq<char>) -> Seq<char> {
    text_lowercase(before_char(after_last_char(url_authority(url), '@'), ':'))
}

/// Why a site URL is refused, if it is.
pub open spec fn site_url_problem(url: Seq<char>) -> Option<Seq<char>> {
    if !"https://"@.is_prefix_of(url) {
        Some("site_url must use HTTPS"@)
    } else {
        let host = site_host(url);
        if host.len() == 0 {
            Some("site_url must contain a hostname"@)
        } else if !".atlassian.net"@.is_suffix_of(host) && !".atlassian.com"@.is_suffix_of(host) {
            Some(
                "site_url must be an Atlassian Cloud domain (*.atlassian.net or *.atlassian.com)"@,
            )
        } else {
            None
        }
    }
}

/// The part of `s` after a position `k` behind which `c` does not occur, and
/// before which `c` stands (or `k` is 0), is the part after the last `c`.
proof fn lemma_after_last_char(s: Seq<char>, c: char, k: int)
    requires
        0 <= k <= s.len(),
        forall|j: int| k <= j < s.len() ==> s[j] != c,
        k == 0 || s[k - 1] == c,
    ensures
        after_last_char(s, c) == s.subrange(k, s.len() as int),
    decreases s.len(),
{
    if s.len() == 0 {
        assert(s.subrange(k, 0) =~= s);
    } else if k == s.len() {
        assert(s.subrange(k, k) =~= Seq::<char>::empty());
    } else {
        let d = s.drop_last();
        assert forall|j: int| k <= j < d.len() implies d[j] != c by {
            assert(d[j] == s[j]);
        }
        if k > 0 {
            assert(d[k - 1] == s[k - 1]);
        }
        lemma_after_last_char(d, c, k);
        assert(d.subrange(k, d.len() as int).push(s.last()) =~= s.subrange(k, s.len() as int));
    }
}

/// The part of `s` after the last `c`.
pub fn chars_after_last(s: &[char], c: char) -> (r: Vec<char>)
    ensures
        r@ == after_last_char(s@, c),
{
    let mut k: usize = s.len();
    while k > 0 && s[k - 1] != c
        invariant
            k <= s.len(),
            forall|j: int| k <= j < s.len() ==> s@[j] != c,
        decreases k,
    {
        k -= 1;
    }
    proof {
        lemma_after_last_char(s@, c, k as int);
    }
    let mut r: Vec<char> = Vec::new();
    let mut i: usize = k;
    while i < s.len()
        invariant
            k <= i <= s.len(),
            r@ == s@.subrange(k as int, i as int),
        decreases s.len() - i,
    {
        r.push(s[i]);
        i += 1;
        assert(r@ =~= s@.subrange(k as int, i as int));
    }
    r
}

/// The part of `s` before the first `c`.
pub fn chars_before(s: &[char], c: char) -> (r: Vec<char>)
    ensures
        r@ == before_char(s@, c),
{
    let end = match chars_find(s, c) {
        Some(i) => i,
        None => s.len(),
    };
    proof {
        lemma_find_char_bounds(s@, c);
    }
    let mut r: Vec<char> = Vec::new();
    let mut k: usize = 0;
    while k < end
        invariant
            k <= end <= s.len(),
            r@ == s@.subrange(0, k as int),
        decreases end - k,
    {
        r.push(s[k]);
        k += 1;
        assert(r@ =~= s@.subrange(0, k as int));
    }
    if end == s.len() {
        assert(r@ =~= s@);
    }
    r
}

/// Validate that a Jira site URL points to a legitimate Atlassian Cloud
/// instance. Rejects private/internal IPs and non-Atlassian hostnames to
/// prevent SSRF: the host is read as a URL parser reads it, ending at the
/// path, query or fragment, after any user information and before the port.
pub fn validate_jira_site_url(url: &str) -> (r: Result<(), &'static str>)
    ensures
        match r {
            Ok(()) => site_url_problem(url@) is None,
            Err(m) => site_url_problem(url@) == Some(m@),
        },
{
    let cs = chars_of(url);
    if !chars_start_with(cs.as_slice(), "https://") {
        return Err("site_url must use HTTPS");
    }
    proof {
        reveal_strlit("https://");
    }
    let mut after_scheme: Vec<char> = Vec::new();
    let mut k: usize = 8;
    while k < cs.len()
        invariant
            8 <= k <= cs.len(),
            after_scheme@ == cs@.subrange(8, k as int),
        decreases cs.len() - k,
    {
        after_scheme.push(cs[k]);
        k += 1;
        assert(after_scheme@ =~= cs@.subrange(8, k as int));
    }
    let path_cut = chars_before(after_scheme.as_slice(), '/');
    let query_cut = chars_before(path_cut.as_slice(), '?');
    let fragment_cut = chars_before(query_cut.as_slice(), '#');
    let authority = chars_before(fragment_cut.as_slice(), '\\');
    let host_port = chars_after_last(authority.as_slice(), '@');
    let port_cut = chars_before(host_port.as_slice(), ':');
    let host_raw = string_of(port_cut.as_slice());
    let host_lower = to_lowercase(host_raw.as_str());
    let host = chars_of(host_lower.as_str());
    if host.len() == 0 {
        return Err("site_url must contain a hostname");
    }
    if !chars_end_with(host.as_slice(), ".atlassian.net") && !chars_end_with(
        host.as_slice(),
        ".atlassian.com",
    ) {
        return Err(
            "site_url must be an Atlassian Cloud domain (*.atlassian.net or *.atlassian.com)",
        );
    }
    Ok(())
}

/// The site URL a connect request is stored under: surrounding whitespace and
/// trailing slashes removed.
pub fn normalize_site_url(input: &str) -> (r: String)
    ensures
        r@ == trim_end_char(trim(input@), '/'),
{
    let cs = chars_of(input);
    let t = trim_chars(cs.as_slice());
    let u = trim_end_char_chars(t.as_slice(), '/');
    string_of(u.as_slice())
}

/// The site root a client talks to: trailing slashes removed.
pub fn client_site_url(input: &str) -> (r: String)
    ensures
        r@ == trim_end_char(input@, '/'),
{
    let cs = chars_of(input);
    let u = trim_end_char_chars(cs.as_slice(), '/');
    string_of(u.as_slice())
}

/// Build a full URL for a Jira REST API v3 endpoint.
pub fn api_url(site_url: &str, path: &str) -> (r: String)
    ensures
        r@ == site_url@ + "/rest/api/3/"@ + trim_start_char(path@, '/'),
{
    let cs = chars_of(path);
    let p = trim_start_char_chars(cs.as_slice(), '/');
    let ps = string_of(p.as_slice());
    let mut r = String::new();
    push_str(&mut r, site_url);
    push_str(&mut r, "/rest/api/3/");
    push_str(&mut r, ps.as_str());
    assert(r@ =~= site_url@ + "/rest/api/3/"@ + trim_start_char(path@, '/'));
    r
}

/// The browser URL of an issue on the site.
pub fn issue_browse_url(site_url: &str, issue_key: &str) -> (r: String)
    ensures
        r@ == site_url@ + "/browse/"@ + issue_key@,
{
    let mut r = String::new();
    push_str(&mut r, site_url);
    push_str(&mut r, "/browse/");
    push_str(&mut r, issue_key);
    assert(r@ =~= site_url@ + "/browse/"@ + issue_key@);
    r
}

/// The project key of an issue key: the part before the first `-`.
pub fn jira_project_key(issue_key: &str) -> (r: String)
    ensures
        r@ == before_char(issue_key@, '-'),
{
    let cs = chars_of(issue_key);
    let p = chars_before(cs.as_slice(), '-');
    string_of(p.as_slice())
}

} // verus!
