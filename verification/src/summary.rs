//! The summary comment posted from the board to a linked Jira issue.
use vstd::prelude::*;
use vstd::utf8::{char_is_scalar, encode_scalar, encode_utf8};

use crate::text::{chars_of, push_str, string_of};

verus! {

/// The number of bytes of a character in UTF-8.
pub open spec fn char_utf8_len(c: char) -> nat {
    if (c as u32) < 0x80 {
        1
    } else if (c as u32) < 0x800 {
        2
    } else if (c as u32) < 0x10000 {
        3
    } else {
        4
    }
}

/// The number of bytes of a text in UTF-8 (`str::len`).
pub open spec fn utf8_len(s: Seq<char>) -> nat
    decreases s.len(),
{
    if s.len() == 0 {
        0
    } else {
        char_utf8_len(s[0]) + utf8_len(s.drop_first())
    }
}

/// The number of leading characters that start before byte `limit`.
pub open spec fn chars_starting_before(s: Seq<char>, limit: nat) -> nat
    decreases s.len(),
{
    if s.len() == 0 || limit == 0 {
        0
    } else {
        let w = char_utf8_len(s[0]);
        1 + chars_starting_before(
            s.drop_first(),
            if w >= limit {
                0
            } else {
                (limit - w) as nat
            },
        )
    }
}

/// A description cut after the last character that starts before byte 500,
/// marked with `...`, when it is longer than 500 bytes.
pub open spec fn truncated_description(desc: Seq<char>) -> Seq<char> {
    if utf8_len(desc) > 500 {
        desc.take(chars_starting_before(desc, 500) as int) + "..."@
    } else {
        desc
    }
}

/// The summary comment: a header, the title, the (truncated) description when
/// there is a non-empty one, and a line for each pull request URL.
pub open spec fn summary_text(title: Seq<char>, description: Option<Seq<char>>, pr_urls: Seq<
    Seq<char>,
>) -> Seq<char> {
    let head = "[Posted via Vibe Kanban]\n\n"@ + title;
    let with_desc = match description {
        Some(d) => if d.len() > 0 {
            head + "\n\n"@ + truncated_description(d)
        } else {
            head
        },
        None => head,
    };
    with_desc + pr_lines(pr_urls)
}

/// One `"\nPR: <url>"` line per pull request URL.
pub open spec fn pr_lines(urls: Seq<Seq<char>>) -> Seq<char>
    decreases urls.len(),
{
    if urls.len() == 0 {
        Seq::empty()
    } else {
        pr_lines(urls.drop_last()) + "\nPR: "@ + urls.last()
    }
}

/// `utf8_len` is the length of the UTF-8 encoding.
pub proof fn lemma_utf8_len(s: Seq<char>)
    ensures
        utf8_len(s) == encode_utf8(s).len(),
    decreases s.len(),
{
    if s.len() > 0 {
        char_is_scalar(s[0]);
        assert(encode_scalar(s[0] as u32).len() == char_utf8_len(s[0]));
        lemma_utf8_len(s.drop_first());
    }
}

/// The number of bytes of a character in UTF-8 (`char::len_utf8`).
pub fn len_utf8(c: char) -> (r: usize)
    ensures
        r == char_utf8_len(c),
{
    if (c as u32) < 0x80 {
        1
    } else if (c as u32) < 0x800 {
        2
    } else if (c as u32) < 0x10000 {
        3
    } else {
        4
    }
}

proof fn lemma_utf8_len_take(s: Seq<char>, i: int)
    requires
        0 <= i < s.len(),
    ensures
        utf8_len(s.take(i + 1)) == utf8_len(s.take(i)) + char_utf8_len(s[i]),
    decreases i,
{
    if i > 0 {
        lemma_utf8_len_take(s.drop_first(), i - 1);
        assert(s.take(i + 1).drop_first() =~= s.drop_first().take(i));
        assert(s.take(i).drop_first() =~= s.drop_first().take(i - 1));
        assert(s.take(i + 1)[0] == s[0]);
        assert(s.take(i)[0] == s[0]);
        assert(s.drop_first()[i - 1] == s[i]);
    } else {
        assert(s.take(1).drop_first() =~= Seq::<char>::empty());
        assert(s.take(0) =~= Seq::<char>::empty());
        assert(s.take(1)[0] == s[0]);
    }
}

proof fn lemma_utf8_len_split(s: Seq<char>, i: int)
    requires
        0 <= i <= s.len(),
    ensures
        utf8_len(s) == utf8_len(s.take(i)) + utf8_len(s.skip(i)),
    decreases i,
{
    if i > 0 {
        lemma_utf8_len_split(s.drop_first(), i - 1);
        assert(s.take(i).drop_first() =~= s.drop_first().take(i - 1));
        assert(s.skip(i) =~= s.drop_first().skip(i - 1));
    } else {
        assert(s.take(0) =~= Seq::<char>::empty());
        assert(s.skip(0) =~= s);
    }
}

/// Whether a description is longer than 500 bytes in UTF-8.
fn longer_than_500_bytes(cs: &[char]) -> (r: bool)
    ensures
        r == (utf8_len(cs@) > 500),
{
    let mut total: usize = 0;
    let mut i: usize = 0;
    while i < cs.len()
        invariant
            i <= cs.len(),
            total == utf8_len(cs@.take(i as int)),
            total <= 500,
        decreases cs.len() - i,
    {
        proof {
            lemma_utf8_len_take(cs@, i as int);
        }
        total = total + len_utf8(cs[i]);
        i += 1;
        if total > 500 {
            proof {
                lemma_utf8_len_split(cs@, i as int);
            }
            return true;
        }
    }
    assert(cs@.take(cs@.len() as int) =~= cs@);
    false
}

/// The number of leading characters that start before byte 500.
fn count_starting_before_500(cs: &[char]) -> (r: usize)
    ensures
        r == chars_starting_before(cs@, 500),
        r <= cs.len(),
{
    let mut offset: usize = 0;
    let mut n: usize = 0;
    assert(cs@.skip(0) =~= cs@);
    while n < cs.len() && offset < 500
        invariant
            n <= cs.len(),
            offset <= 503,
            chars_starting_before(cs@, 500) == n + chars_starting_before(
                cs@.skip(n as int),
                if offset >= 500 {
                    0
                } else {
                    (500 - offset) as nat
                },
            ),
        decreases cs.len() - n,
    {
        proof {
            let rest = cs@.skip(n as int);
            assert(rest[0] == cs@[n as int]);
            assert(rest.drop_first() =~= cs@.skip(n + 1));
        }
        offset = offset + len_utf8(cs[n]);
        n += 1;
    }
    proof {
        if n == cs.len() {
            assert(cs@.skip(n as int).len() == 0);
        }
    }
    n
}

/// A description as posted: cut after the last character that starts before
/// byte 500 and marked with `...` when longer than 500 bytes.
pub fn truncate_description(desc: &str) -> (r: String)
    ensures
        r@ == truncated_description(desc@),
{
    let cs = chars_of(desc);
    if longer_than_500_bytes(cs.as_slice()) {
        let n = count_starting_before_500(cs.as_slice());
        let mut r = String::new();
        let mut k: usize = 0;
        while k < n
            invariant
                k <= n <= cs.len(),
                r@ == cs@.take(k as int),
            decreases n - k,
        {
            crate::text::push_char(&mut r, cs[k]);
            k += 1;
            assert(r@ =~= cs@.take(k as int));
        }
        push_str(&mut r, "...");
        r
    } else {
        string_of(cs.as_slice())
    }
}

/// The summary comment posted to Jira for an issue.
pub fn summary_comment(title: &str, description: Option<&str>, pr_urls: &Vec<String>) -> (r:
    String)
    ensures
        r@ == summary_text(
            title@,
            match description {
                Some(d) => Some(d@),
                None => None,
            },
            pr_urls@.map_values(|u: String| u@),
        ),
{
    let mut summary = String::new();
    push_str(&mut summary, "[Posted via Vibe Kanban]\n\n");
    push_str(&mut summary, title);
    assert(summary@ =~= "[Posted via Vibe Kanban]\n\n"@ + title@);
    match description {
        Some(desc) => {
            if !desc.is_empty() {
                let truncated = truncate_description(desc);
                let ghost before = summary@;
                push_str(&mut summary, "\n\n");
                push_str(&mut summary, truncated.as_str());
                assert(summary@ =~= before + "\n\n"@ + truncated@);
            }
        },
        None => {},
    }
    let ghost with_desc = summary@;
    let ghost urls = pr_urls@.map_values(|u: String| u@);
    let mut i: usize = 0;
    assert(with_desc =~= with_desc + pr_lines(urls.take(0)));
    while i < pr_urls.len()
        invariant
            i <= pr_urls.len(),
            urls == pr_urls@.map_values(|u: String| u@),
            summary@ == with_desc + pr_lines(urls.take(i as int)),
        decreases pr_urls.len() - i,
    {
        let ghost before = summary@;
        push_str(&mut summary, "\nPR: ");
        push_str(&mut summary, pr_urls[i].as_str());
        proof {
            assert(urls.take(i + 1).drop_last() =~= urls.take(i as int));
            assert(summary@ =~= with_desc + pr_lines(urls.take(i + 1)));
        }
        i += 1;
    }
    assert(urls.take(urls.len() as int) =~= urls);
    summary
}

proof fn lemma_utf8_len_take_after_first(s: Seq<char>, j: int)
    requires
        0 <= j < s.len(),
    ensures
        utf8_len(s.take(j + 1)) == char_utf8_len(s[0]) + utf8_len(s.drop_first().take(j)),
{
    let t = s.take(j + 1);
    assert(t.drop_first() =~= s.drop_first().take(j));
    assert(t[0] == s[0]);
}

/// Where a text of at least `limit > 0` bytes is cut: after `k` characters,
/// the last of which starts before byte `limit` and ends at or after it.
proof fn lemma_cut_point(s: Seq<char>, limit: nat)
    requires
        limit > 0,
        utf8_len(s) >= limit,
    ensures
        1 <= chars_starting_before(s, limit) <= s.len(),
        utf8_len(s.take(chars_starting_before(s, limit) - 1)) < limit,
        limit <= utf8_len(s.take(chars_starting_before(s, limit) as int)),
        utf8_len(s.take(chars_starting_before(s, limit) as int)) < limit + 4,
    decreases s.len(),
{
    let k = chars_starting_before(s, limit);
    let w = char_utf8_len(s[0]);
    let rest = s.drop_first();
    assert(s.take(0) =~= Seq::<char>::empty());
    if w >= limit {
        assert(chars_starting_before(rest, 0) == 0);
        assert(k == 1);
        lemma_utf8_len_take_after_first(s, 0);
        assert(rest.take(0) =~= Seq::<char>::empty());
    } else {
        let l2 = (limit - w) as nat;
        lemma_cut_point(rest, l2);
        let k2 = chars_starting_before(rest, l2) as int;
        assert(k == 1 + k2);
        lemma_utf8_len_take_after_first(s, k2);
        lemma_utf8_len_take_after_first(s, k2 - 1);
    }
}

/// A description is cut exactly when it is longer than 500 bytes in UTF-8.
/// A cut description is a prefix of it followed by `...`; the prefix ends
/// with the last character that starts before byte 500, so it holds at
/// least 500 and at most 503 bytes.
pub proof fn lemma_description_cut(desc: Seq<char>)
    ensures
        utf8_len(desc) <= 500 ==> truncated_description(desc) == desc,
        utf8_len(desc) > 500 ==> exists|k: int|
            1 <= k <= desc.len() && truncated_description(desc) == desc.take(k) + "..."@
                && utf8_len(desc.take(k - 1)) < 500 && 500 <= utf8_len(desc.take(k))
                && utf8_len(desc.take(k)) <= 503,
{
    if 500 < utf8_len(desc) {
        lemma_cut_point(desc, 500);
        let k = chars_starting_before(desc, 500) as int;
        assert(truncated_description(desc) == desc.take(k) + "..."@);
    }
}

} // verus!
