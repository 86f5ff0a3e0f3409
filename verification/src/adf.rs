//! Conversion of Atlassian Document Format (ADF) JSON into markdown text.
use vstd::prelude::*;

use crate::json::{
    find_key, as_str, as_u64, entry, first_key, get, get_entry, height, height_entries, height_items,
    json_get, lemma_height_entry, lemma_height_item, opt_str, opt_u64,
    str_or_empty, Json,
};
use crate::text::{
    chars_of, chars_start_with, concat, concat_strings, join, join_strings, lines, lines_of,
    push_str, repeat, repeat_str, string_of, str_equal, to_lowercase, trim,
    trim_chars, text_lowercase, whitespace_stripped, lemma_trim_strips_whitespace,
};

verus! {

// ---------------------------------------------------------------------------
// Specification
// ---------------------------------------------------------------------------

/// Whether a URL is free of the schemes that could run script when the
/// markdown is rendered (`javascript:`, `data:`, `vbscript:`), compared after
/// trimming whitespace and lower-casing.
pub open spec fn safe_url(url: Seq<char>) -> bool {
    let lower = text_lowercase(trim(url));
    &&& !"javascript:"@.is_prefix_of(lower)
    &&& !"data:"@.is_prefix_of(lower)
    &&& !"vbscript:"@.is_prefix_of(lower)
}

/// The `type` member of any value, or `""`.
pub open spec fn value_type(j: Json) -> Seq<char> {
    str_or_empty(opt_str(json_get(j, "type"@)))
}

/// The `type` member of an object, or `""`.
pub open spec fn node_type(entries: Seq<(String, Json)>) -> Seq<char> {
    str_or_empty(opt_str(entry(entries, "type"@)))
}

/// The string attribute `attrs.<key>` of an object.
pub open spec fn attr_str(entries: Seq<(String, Json)>, key: Seq<char>) -> Option<Seq<char>> {
    match entry(entries, "attrs"@) {
        Some(a) => opt_str(json_get(a, key)),
        None => None,
    }
}

/// The heading level `attrs.level`, 1 when absent or not an unsigned integer.
pub open spec fn heading_level(entries: Seq<(String, Json)>) -> u64 {
    match entry(entries, "attrs"@) {
        Some(a) => match opt_u64(json_get(a, "level"@)) {
            Some(n) => n,
            None => 1,
        },
        None => 1,
    }
}

/// The marks present on a text node: strong, em, strike, code, and the safe
/// `href` of the last link mark (a link mark whose `href` is missing or unsafe
/// clears it).
pub open spec fn mark_flags(marks: Seq<Json>) -> (bool, bool, bool, bool, Option<Seq<char>>)
    decreases marks.len(),
{
    if marks.len() == 0 {
        (false, false, false, false, None)
    } else {
        let prev = mark_flags(marks.drop_last());
        let m = marks.last();
        let t = value_type(m);
        if t == "strong"@ {
            (true, prev.1, prev.2, prev.3, prev.4)
        } else if t == "em"@ {
            (prev.0, true, prev.2, prev.3, prev.4)
        } else if t == "strike"@ {
            (prev.0, prev.1, true, prev.3, prev.4)
        } else if t == "code"@ {
            (prev.0, prev.1, prev.2, true, prev.4)
        } else if t == "link"@ {
            let href = match json_get(m, "attrs"@) {
                Some(a) => opt_str(json_get(a, "href"@)),
                None => None,
            };
            let link = match href {
                Some(h) => if safe_url(h) {
                    Some(h)
                } else {
                    None
                },
                None => None,
            };
            (prev.0, prev.1, prev.2, prev.3, link)
        } else {
            prev
        }
    }
}

/// Text with its marks applied, innermost first: code, strike, em, strong,
/// then link.
pub open spec fn marked_text(text: Seq<char>, marks: Option<Json>) -> Seq<char> {
    match marks {
        Some(Json::Array(a)) => {
            let f = mark_flags(a@);
            let r1 = if f.3 {
                "`"@ + text + "`"@
            } else {
                text
            };
            let r2 = if f.2 {
                "~~"@ + r1 + "~~"@
            } else {
                r1
            };
            let r3 = if f.1 {
                "*"@ + r2 + "*"@
            } else {
                r2
            };
            let r4 = if f.0 {
                "**"@ + r3 + "**"@
            } else {
                r3
            };
            match f.4 {
                Some(href) => "["@ + r4 + "]("@ + href + ")"@,
                None => r4,
            }
        },
        _ => text,
    }
}

/// Each line prefixed with `"> "`, joined by newlines.
pub open spec fn quote_lines(text: Seq<char>) -> Seq<char> {
    join(lines(text).map_values(|l: Seq<char>| "> "@ + l), "\n"@)
}

/// List items: each rendered child behind the indentation for `depth` and the
/// item prefix.
pub open spec fn list_lines(rendered: Seq<Seq<char>>, prefix: Seq<char>, depth: nat) -> Seq<
    Seq<char>,
> {
    rendered.map_values(|t: Seq<char>| repeat("  "@, depth) + prefix + t)
}

/// The markdown for a value at list nesting `depth`.
pub open spec fn markdown(j: Json, depth: nat) -> Seq<char>
    decreases j, 0int,
{
    match j {
        Json::Text(s) => s@,
        Json::Object(entries) => markdown_object(entries@, depth),
        _ => Seq::empty(),
    }
}

/// The markdown for an object node.
pub open spec fn markdown_object(entries: Seq<(String, Json)>, depth: nat) -> Seq<char>
    decreases entries, 1int,
{
    let t = node_type(entries);
    if t == "doc"@ {
        concat(markdown_content(entries, depth))
    } else if t == "paragraph"@ {
        concat(markdown_content(entries, depth)) + "\n\n"@
    } else if t == "text"@ {
        marked_text(str_or_empty(opt_str(entry(entries, "text"@))), entry(entries, "marks"@))
    } else if t == "heading"@ {
        repeat("#"@, (heading_level(entries) as usize) as nat) + " "@ + concat(
            markdown_content(entries, depth),
        ) + "\n\n"@
    } else if t == "bulletList"@ {
        concat(list_lines(markdown_content(entries, depth), "- "@, depth))
    } else if t == "orderedList"@ {
        concat(list_lines(markdown_content(entries, depth), "1. "@, depth))
    } else if t == "listItem"@ {
        concat(markdown_item_content(entries, depth))
    } else if t == "codeBlock"@ {
        "```"@ + str_or_empty(attr_str(entries, "language"@)) + "\n"@ + concat(
            markdown_content(entries, depth),
        ) + "\n```\n\n"@
    } else if t == "blockquote"@ {
        quote_lines(concat(markdown_content(entries, depth))) + "\n\n"@
    } else if t == "hardBreak"@ {
        "\n"@
    } else if t == "rule"@ {
        "---\n\n"@
    } else if t == "inlineCard"@ {
        let url = str_or_empty(attr_str(entries, "url"@));
        if url.len() == 0 || !safe_url(url) {
            Seq::empty()
        } else {
            url
        }
    } else if t == "table"@ {
        concat(markdown_content(entries, depth))
    } else if t == "tableRow"@ {
        "| "@ + join(markdown_content(entries, depth), " | "@) + " |\n"@
    } else if t == "tableHeader"@ || t == "tableCell"@ {
        trim(concat(markdown_content(entries, depth)))
    } else {
        concat(markdown_content(entries, depth))
    }
}

/// The rendered children in the `content` array of an object.
pub open spec fn markdown_content(entries: Seq<(String, Json)>, depth: nat) -> Seq<Seq<char>>
    decreases entries, 0int,
{
    match first_key(entries, "content"@) {
        Some(k) => if 0 <= k < entries.len() {
            match entries[k].1 {
                Json::Array(a) => markdown_items(a@, depth),
                _ => Seq::empty(),
            }
        } else {
            Seq::empty()
        },
        None => Seq::empty(),
    }
}

/// The rendered children of a list item: nested lists one level deeper.
pub open spec fn markdown_item_content(entries: Seq<(String, Json)>, depth: nat) -> Seq<
    Seq<char>,
>
    decreases entries, 0int,
{
    match first_key(entries, "content"@) {
        Some(k) => if 0 <= k < entries.len() {
            match entries[k].1 {
                Json::Array(a) => markdown_item_children(a@, depth),
                _ => Seq::empty(),
            }
        } else {
            Seq::empty()
        },
        None => Seq::empty(),
    }
}

/// Each item rendered at `depth`.
pub open spec fn markdown_items(items: Seq<Json>, depth: nat) -> Seq<Seq<char>>
    decreases items, 0int,
{
    if items.len() == 0 {
        Seq::empty()
    } else {
        markdown_items(items.drop_last(), depth).push(markdown(items.last(), depth))
    }
}

/// The depth at which a list-item child is rendered: nested lists one deeper.
pub open spec fn child_depth(child: Json, depth: nat) -> nat {
    let t = value_type(child);
    if t == "bulletList"@ || t == "orderedList"@ {
        depth + 1
    } else {
        depth
    }
}

/// Each list-item child rendered, nested lists at `depth + 1`.
pub open spec fn markdown_item_children(items: Seq<Json>, depth: nat) -> Seq<Seq<char>>
    decreases items, 0int,
{
    if items.len() == 0 {
        Seq::empty()
    } else {
        markdown_item_children(items.drop_last(), depth).push(
            markdown(items.last(), child_depth(items.last(), depth)),
        )
    }
}

// ---------------------------------------------------------------------------
// Implementation
// ---------------------------------------------------------------------------

/// `Option<&str>::unwrap_or("")`.
fn or_empty<'a>(s: Option<&'a str>) -> (r: &'a str)
    ensures
        r@ == str_or_empty(
            match s {
                Some(t) => Some(t@),
                None => None,
            },
        ),
{
    match s {
        Some(t) => t,
        None => {
            proof {
                reveal_strlit("");
            }
            ""
        },
    }
}

/// `open + inner + close` as a new string.
fn wrap(open: &str, inner: &str, close: &str) -> (r: String)
    ensures
        r@ == open@ + inner@ + close@,
{
    let mut r = String::new();
    push_str(&mut r, open);
    push_str(&mut r, inner);
    push_str(&mut r, close);
    assert(r@ =~= open@ + inner@ + close@);
    r
}

/// `first + second` as a new string.
fn join2(first: &str, second: &str) -> (r: String)
    ensures
        r@ == first@ + second@,
{
    let mut r = String::new();
    push_str(&mut r, first);
    push_str(&mut r, second);
    assert(r@ =~= first@ + second@);
    r
}

/// Reject dangerous URL schemes that could cause XSS if markdown is rendered
/// unsanitized.
pub fn is_safe_url(url: &str) -> (r: bool)
    ensures
        r == safe_url(url@),
{
    let cs = chars_of(url);
    let trimmed = trim_chars(cs.as_slice());
    let trimmed_str = string_of(trimmed.as_slice());
    let lower = to_lowercase(trimmed_str.as_str());
    let lc = chars_of(lower.as_str());
    !chars_start_with(lc.as_slice(), "javascript:") && !chars_start_with(lc.as_slice(), "data:")
        && !chars_start_with(lc.as_slice(), "vbscript:")
}

/// Apply ADF text marks (bold, italic, code, strikethrough, link), innermost
/// first: code, strike, em, strong, link.
pub fn apply_marks(text: &str, marks: Option<&Json>) -> (r: String)
    ensures
        r@ == marked_text(
            text@,
            match marks {
                Some(m) => Some(*m),
                None => None,
            },
        ),
{
    let arr = match marks {
        Some(Json::Array(a)) => a,
        _ => {
            return owned_str(text);
        },
    };
    let mut has_strong = false;
    let mut has_em = false;
    let mut has_strike = false;
    let mut has_code = false;
    let mut link_href: Option<String> = None;
    let mut i: usize = 0;
    while i < arr.len()
        invariant
            i <= arr.len(),
            mark_flags(arr@.subrange(0, i as int)) == (
                has_strong,
                has_em,
                has_strike,
                has_code,
                match link_href {
                    Some(h) => Some(h@),
                    None => None::<Seq<char>>,
                },
            ),
        decreases arr.len() - i,
    {
        let mark = &arr[i];
        let mark_type = or_empty(as_str(get(mark, "type")));
        proof {
            assert(arr@.subrange(0, i + 1).drop_last() =~= arr@.subrange(0, i as int));
            assert(arr@.subrange(0, i + 1).last() == arr@[i as int]);
        }
        if str_equal(mark_type, "strong") {
            has_strong = true;
        } else if str_equal(mark_type, "em") {
            has_em = true;
        } else if str_equal(mark_type, "strike") {
            has_strike = true;
        } else if str_equal(mark_type, "code") {
            has_code = true;
        } else if str_equal(mark_type, "link") {
            let href = match get(mark, "attrs") {
                Some(a) => as_str(get(a, "href")),
                None => None,
            };
            link_href =
            match href {
                Some(h) => if is_safe_url(h) {
                    Some(owned_str(h))
                } else {
                    None
                },
                None => None,
            };
        }
        i += 1;
    }
    assert(arr@.subrange(0, arr@.len() as int) =~= arr@);
    let mut result = owned_str(text);
    if has_code {
        result = wrap("`", result.as_str(), "`");
    }
    if has_strike {
        result = wrap("~~", result.as_str(), "~~");
    }
    if has_em {
        result = wrap("*", result.as_str(), "*");
    }
    if has_strong {
        result = wrap("**", result.as_str(), "**");
    }
    match link_href {
        Some(href) => {
            let mut r = wrap("[", result.as_str(), "](");
            push_str(&mut r, href.as_str());
            push_str(&mut r, ")");
            r
        },
        None => result,
    }
}

/// An owned copy of a string slice.
fn owned_str(s: &str) -> (r: String)
    ensures
        r@ == s@,
{
    crate::text::owned(s)
}

/// The rendered children in the `content` array of an object.
fn extract_content_children_depth(obj: &Vec<(String, Json)>, depth: usize) -> (r: Vec<String>)
    requires
        depth + 1 + height_entries(obj@) <= usize::MAX,
    ensures
        r@.map_values(|s: String| s@) == markdown_content(obj@, depth as nat),
    decreases obj, 0int,
{
    match find_key(obj, "content") {
        Some(k) => {
            proof {
                lemma_height_entry(obj@, k as int);
            }
            match &obj[k].1 {
                Json::Array(arr) => render_items(arr, depth),
                _ => no_children(),
            }
        },
        None => no_children(),
    }
}

/// An empty list of rendered children.
fn no_children() -> (r: Vec<String>)
    ensures
        r@.map_values(|s: String| s@) == Seq::<Seq<char>>::empty(),
{
    let r: Vec<String> = Vec::new();
    assert(r@.map_values(|s: String| s@) =~= Seq::<Seq<char>>::empty());
    r
}

/// Each item rendered at `depth`.
fn render_items(arr: &Vec<Json>, depth: usize) -> (r: Vec<String>)
    requires
        depth + 2 + height_items(arr@) <= usize::MAX,
    ensures
        r@.map_values(|s: String| s@) == markdown_items(arr@, depth as nat),
    decreases arr, 0int,
{
    let mut out: Vec<String> = Vec::new();
    let mut i: usize = 0;
    assert(out@.map_values(|s: String| s@) =~= Seq::<Seq<char>>::empty());
    while i < arr.len()
        invariant
            i <= arr.len(),
            depth + 2 + height_items(arr@) <= usize::MAX,
            out@.map_values(|s: String| s@) == markdown_items(
                arr@.subrange(0, i as int),
                depth as nat,
            ),
        decreases arr.len() - i,
    {
        proof {
            lemma_height_item(arr@, i as int);
        }
        let t = adf_to_markdown_inner(&arr[i], depth);
        let ghost before = out@.map_values(|s: String| s@);
        out.push(t);
        proof {
            let sub = arr@.subrange(0, i + 1);
            assert(sub.drop_last() =~= arr@.subrange(0, i as int));
            assert(sub.last() == arr@[i as int]);
            assert(out@.map_values(|s: String| s@) =~= before.push(t@));
        }
        i += 1;
    }
    assert(arr@.subrange(0, arr@.len() as int) =~= arr@);
    out
}

/// The rendered children of a list item, nested lists one level deeper.
fn extract_item_children_depth(obj: &Vec<(String, Json)>, depth: usize) -> (r: Vec<String>)
    requires
        depth + 1 + height_entries(obj@) <= usize::MAX,
    ensures
        r@.map_values(|s: String| s@) == markdown_item_content(obj@, depth as nat),
    decreases obj, 0int,
{
    match find_key(obj, "content") {
        Some(k) => {
            proof {
                lemma_height_entry(obj@, k as int);
            }
            match &obj[k].1 {
                Json::Array(arr) => render_item_children(arr, depth),
                _ => no_children(),
            }
        },
        None => no_children(),
    }
}

/// Each list-item child rendered, nested lists at `depth + 1`.
fn render_item_children(arr: &Vec<Json>, depth: usize) -> (r: Vec<String>)
    requires
        depth + 2 + height_items(arr@) <= usize::MAX,
    ensures
        r@.map_values(|s: String| s@) == markdown_item_children(arr@, depth as nat),
    decreases arr, 0int,
{
    let mut out: Vec<String> = Vec::new();
    let mut i: usize = 0;
    assert(out@.map_values(|s: String| s@) =~= Seq::<Seq<char>>::empty());
    while i < arr.len()
        invariant
            i <= arr.len(),
            depth + 2 + height_items(arr@) <= usize::MAX,
            out@.map_values(|s: String| s@) == markdown_item_children(
                arr@.subrange(0, i as int),
                depth as nat,
            ),
        decreases arr.len() - i,
    {
        proof {
            lemma_height_item(arr@, i as int);
        }
        let child = &arr[i];
        let child_type = or_empty(as_str(get(child, "type")));
        let t = if str_equal(child_type, "bulletList") || str_equal(child_type, "orderedList") {
            adf_to_markdown_inner(child, depth + 1)
        } else {
            adf_to_markdown_inner(child, depth)
        };
        let ghost before = out@.map_values(|s: String| s@);
        out.push(t);
        proof {
            let sub = arr@.subrange(0, i + 1);
            assert(sub.drop_last() =~= arr@.subrange(0, i as int));
            assert(sub.last() == arr@[i as int]);
            assert(out@.map_values(|s: String| s@) =~= before.push(t@));
        }
        i += 1;
    }
    assert(arr@.subrange(0, arr@.len() as int) =~= arr@);
    out
}

/// The list items of an object, each behind the indentation for `depth` and
/// the item prefix.
fn extract_list_items_depth(obj: &Vec<(String, Json)>, prefix: &str, depth: usize) -> (r: Vec<
    String,
>)
    requires
        depth + 1 + height_entries(obj@) <= usize::MAX,
    ensures
        r@.map_values(|s: String| s@) == list_lines(
            markdown_content(obj@, depth as nat),
            prefix@,
            depth as nat,
        ),
    decreases obj, 1int,
{
    let indent = repeat_str("  ", depth);
    let children = extract_content_children_depth(obj, depth);
    let ghost rendered = children@.map_values(|s: String| s@);
    let mut out: Vec<String> = Vec::new();
    let mut i: usize = 0;
    while i < children.len()
        invariant
            i <= children.len(),
            rendered == children@.map_values(|s: String| s@),
            indent@ == repeat("  "@, depth as nat),
            out@.map_values(|s: String| s@) == list_lines(
                rendered.subrange(0, i as int),
                prefix@,
                depth as nat,
            ),
        decreases children.len() - i,
    {
        let line = wrap(indent.as_str(), prefix, children[i].as_str());
        let ghost before = out@.map_values(|s: String| s@);
        out.push(line);
        proof {
            let sub = rendered.subrange(0, i + 1);
            assert(sub =~= rendered.subrange(0, i as int).push(rendered[i as int]));
            assert(list_lines(sub, prefix@, depth as nat) =~= list_lines(
                rendered.subrange(0, i as int),
                prefix@,
                depth as nat,
            ).push(repeat("  "@, depth as nat) + prefix@ + rendered[i as int]));
            assert(out@.map_values(|s: String| s@) =~= before.push(line@));
            assert(out@.map_values(|s: String| s@) =~= list_lines(
                rendered.subrange(0, i + 1),
                prefix@,
                depth as nat,
            ));
        }
        i += 1;
    }
    assert(rendered.subrange(0, rendered.len() as int) =~= rendered);
    out
}

/// Each line of `text` behind `"> "`, joined by newlines.
fn quote(text: &str) -> (r: String)
    ensures
        r@ == quote_lines(text@),
{
    let cs = chars_of(text);
    let ls = lines_of(cs.as_slice());
    let ghost lv = ls@.map_values(|l: Vec<char>| l@);
    let mut quoted: Vec<String> = Vec::new();
    let mut i: usize = 0;
    while i < ls.len()
        invariant
            i <= ls.len(),
            lv == ls@.map_values(|l: Vec<char>| l@),
            lv == lines(text@),
            quoted@.map_values(|s: String| s@) == lv.subrange(0, i as int).map_values(
                |l: Seq<char>| "> "@ + l,
            ),
        decreases ls.len() - i,
    {
        let line = string_of(ls[i].as_slice());
        let q = join2("> ", line.as_str());
        let ghost before = quoted@.map_values(|s: String| s@);
        quoted.push(q);
        proof {
            assert(q@ =~= "> "@ + lv[i as int]);
            let sub = lv.subrange(0, i + 1);
            assert(sub =~= lv.subrange(0, i as int).push(lv[i as int]));
            assert(sub.map_values(|l: Seq<char>| "> "@ + l) =~= lv.subrange(0, i as int).map_values(
                |l: Seq<char>| "> "@ + l,
            ).push("> "@ + lv[i as int]));
            assert(quoted@.map_values(|s: String| s@) =~= lv.subrange(0, i + 1).map_values(
                |l: Seq<char>| "> "@ + l,
            ));
        }
        i += 1;
    }
    assert(lv.subrange(0, lv.len() as int) =~= lv);
    join_strings(&quoted, "\n")
}

/// Convert Jira ADF (Atlassian Document Format) JSON to plain-text markdown.
/// This is a best-effort conversion for importing issue descriptions.
pub fn adf_to_markdown(adf: &Json) -> (r: String)
    requires
        height(*adf) <= usize::MAX,
    ensures
        r@ == markdown(*adf, 0),
{
    adf_to_markdown_inner(adf, 0)
}

/// The markdown for a value at list nesting `depth`.
fn adf_to_markdown_inner(adf: &Json, depth: usize) -> (r: String)
    requires
        depth + height(*adf) <= usize::MAX,
    ensures
        r@ == markdown(*adf, depth as nat),
    decreases adf, 0int,
{
    match adf {
        Json::Text(s) => owned_str(s.as_str()),
        Json::Object(obj) => render_object(obj, depth),
        _ => String::new(),
    }
}

/// The markdown for an object node.
fn render_object(obj: &Vec<(String, Json)>, depth: usize) -> (r: String)
    requires
        depth + 1 + height_entries(obj@) <= usize::MAX,
    ensures
        r@ == markdown_object(obj@, depth as nat),
    decreases obj, 2int,
{
    {
        {
            let node_type = or_empty(as_str(get_entry(obj, "type")));
            assert(node_type@ == self::node_type(obj@));
            if str_equal(node_type, "doc") || str_equal(node_type, "paragraph") {
                proof {
                    reveal_strlit("doc");
                    reveal_strlit("paragraph");
                }
                let children = extract_content_children_depth(obj, depth);
                let text = concat_strings(&children);
                if str_equal(node_type, "paragraph") {
                    let r = join2(text.as_str(), "\n\n");
                    assert(r@ == markdown_object(obj@, depth as nat));
                    r
                } else {
                    assert(text@ == markdown_object(obj@, depth as nat));
                    text
                }
            } else if str_equal(node_type, "text") {
                let raw = or_empty(as_str(get_entry(obj, "text")));
                let r = apply_marks(raw, get_entry(obj, "marks"));
                assert(r@ == markdown_object(obj@, depth as nat));
                r
            } else if str_equal(node_type, "heading") {
                let level = match get_entry(obj, "attrs") {
                    Some(a) => match as_u64(get(a, "level")) {
                        Some(n) => n,
                        None => 1,
                    },
                    None => 1,
                };
                let children = extract_content_children_depth(obj, depth);
                let hashes = repeat_str("#", #[verifier::truncate] (level as usize));
                let body = concat_strings(&children);
                let mut r = wrap(hashes.as_str(), " ", body.as_str());
                push_str(&mut r, "\n\n");
                assert(r@ =~= hashes@ + " "@ + body@ + "\n\n"@);
                assert(r@ == markdown_object(obj@, depth as nat));
                r
            } else if str_equal(node_type, "bulletList") {
                let items = extract_list_items_depth(obj, "- ", depth);
                concat_strings(&items)
            } else if str_equal(node_type, "orderedList") {
                let items = extract_list_items_depth(obj, "1. ", depth);
                concat_strings(&items)
            } else if str_equal(node_type, "listItem") {
                let children = extract_item_children_depth(obj, depth);
                concat_strings(&children)
            } else if str_equal(node_type, "codeBlock") {
                let lang = match get_entry(obj, "attrs") {
                    Some(a) => or_empty(as_str(get(a, "language"))),
                    None => or_empty(None),
                };
                let children = extract_content_children_depth(obj, depth);
                let body = concat_strings(&children);
                let mut r = wrap("```", lang, "\n");
                push_str(&mut r, body.as_str());
                push_str(&mut r, "\n```\n\n");
                assert(r@ =~= "```"@ + lang@ + "\n"@ + body@ + "\n```\n\n"@);
                r
            } else if str_equal(node_type, "blockquote") {
                let children = extract_content_children_depth(obj, depth);
                let body = concat_strings(&children);
                let quoted = quote(body.as_str());
                join2(quoted.as_str(), "\n\n")
            } else if str_equal(node_type, "hardBreak") {
                owned_str("\n")
            } else if str_equal(node_type, "rule") {
                owned_str("---\n\n")
            } else if str_equal(node_type, "inlineCard") {
                let url = match get_entry(obj, "attrs") {
                    Some(a) => or_empty(as_str(get(a, "url"))),
                    None => or_empty(None),
                };
                if url.is_empty() || !is_safe_url(url) {
                    String::new()
                } else {
                    owned_str(url)
                }
            } else if str_equal(node_type, "table") {
                let children = extract_content_children_depth(obj, depth);
                concat_strings(&children)
            } else if str_equal(node_type, "tableRow") {
                let cells = extract_content_children_depth(obj, depth);
                let inner = join_strings(&cells, " | ");
                wrap("| ", inner.as_str(), " |\n")
            } else if str_equal(node_type, "tableHeader") || str_equal(node_type, "tableCell") {
                let children = extract_content_children_depth(obj, depth);
                let body = concat_strings(&children);
                let cs = chars_of(body.as_str());
                let t = trim_chars(cs.as_slice());
                string_of(t.as_slice())
            } else {
                let children = extract_content_children_depth(obj, depth);
                concat_strings(&children)
            }
        }
    }
}

// ---------------------------------------------------------------------------
// Law: the order of marks does not matter
// ---------------------------------------------------------------------------

/// Some mark has this type.
pub open spec fn has_mark(marks: Seq<Json>, t: Seq<char>) -> bool {
    exists|i: int| 0 <= i < marks.len() && value_type(#[trigger] marks[i]) == t
}

/// The safe `href` that a link mark carries, if any.
pub open spec fn link_target(m: Json) -> Option<Seq<char>> {
    let href = match json_get(m, "attrs"@) {
        Some(a) => opt_str(json_get(a, "href"@)),
        None => None,
    };
    match href {
        Some(h) => if safe_url(h) {
            Some(h)
        } else {
            None
        },
        None => None,
    }
}

proof fn lemma_mark_names_distinct()
    ensures
        "strong"@ != "em"@,
        "strong"@ != "strike"@,
        "strong"@ != "code"@,
        "strong"@ != "link"@,
        "em"@ != "strike"@,
        "em"@ != "code"@,
        "em"@ != "link"@,
        "strike"@ != "code"@,
        "strike"@ != "link"@,
        "code"@ != "link"@,
{
    reveal_strlit("strong");
    reveal_strlit("em");
    reveal_strlit("strike");
    reveal_strlit("code");
    reveal_strlit("link");
    assert("strong"@[3] != "strike"@[3]);
    assert("strong"@[0] != "em"@[0]);
    assert("strong"@[0] != "code"@[0]);
    assert("strong"@[0] != "link"@[0]);
    assert("em"@.len() != "strike"@.len());
    assert("em"@[0] != "code"@[0]);
    assert("em"@[0] != "link"@[0]);
    assert("strike"@[0] != "code"@[0]);
    assert("strike"@[0] != "link"@[0]);
    assert("code"@[0] != "link"@[0]);
}

/// The flags of a list of marks: each style flag says whether some mark has
/// that style; when every link mark is `link`, the link is that mark's target
/// (none without link marks).
proof fn lemma_mark_flags_occurrence(marks: Seq<Json>, link: Json)
    requires
        forall|i: int|
            0 <= i < marks.len() && value_type(#[trigger] marks[i]) == "link"@ ==> marks[i]
                == link,
    ensures
        mark_flags(marks).0 == has_mark(marks, "strong"@),
        mark_flags(marks).1 == has_mark(marks, "em"@),
        mark_flags(marks).2 == has_mark(marks, "strike"@),
        mark_flags(marks).3 == has_mark(marks, "code"@),
        mark_flags(marks).4 == if has_mark(marks, "link"@) {
            link_target(link)
        } else {
            None
        },
    decreases marks.len(),
{
    lemma_mark_names_distinct();
    if marks.len() > 0 {
        let prev = marks.drop_last();
        assert forall|i: int|
            0 <= i < prev.len() && value_type(#[trigger] prev[i]) == "link"@ implies prev[i]
            == link by {
            assert(prev[i] == marks[i]);
        }
        lemma_mark_flags_occurrence(prev, link);
        let last = marks.len() - 1;
        assert(marks[last] == marks.last());
        assert forall|t: Seq<char>| #[trigger] has_mark(marks, t) == (has_mark(prev, t) || value_type(
            marks.last(),
        ) == t) by {
            if has_mark(marks, t) {
                let i = choose|i: int| 0 <= i < marks.len() && value_type(#[trigger] marks[i]) == t;
                if i < last {
                    assert(prev[i] == marks[i]);
                }
            }
            if has_mark(prev, t) {
                let i = choose|i: int| 0 <= i < prev.len() && value_type(#[trigger] prev[i]) == t;
                assert(prev[i] == marks[i]);
            }
        }
        assert(has_mark(marks, "strong"@) == (has_mark(prev, "strong"@) || value_type(marks.last()) == "strong"@));
        assert(has_mark(marks, "em"@) == (has_mark(prev, "em"@) || value_type(marks.last()) == "em"@));
        assert(has_mark(marks, "strike"@) == (has_mark(prev, "strike"@) || value_type(marks.last()) == "strike"@));
        assert(has_mark(marks, "code"@) == (has_mark(prev, "code"@) || value_type(marks.last()) == "code"@));
        assert(has_mark(marks, "link"@) == (has_mark(prev, "link"@) || value_type(marks.last()) == "link"@));
    } else {
        assert(!has_mark(marks, "strong"@));
        assert(!has_mark(marks, "em"@));
        assert(!has_mark(marks, "strike"@));
        assert(!has_mark(marks, "code"@));
        assert(!has_mark(marks, "link"@));
    }
}

/// A mark type occurs in one list exactly when it occurs in a permutation of
/// it.
proof fn lemma_has_mark_permutation(a: Seq<Json>, b: Seq<Json>, t: Seq<char>)
    requires
        a.to_multiset() == b.to_multiset(),
    ensures
        has_mark(a, t) == has_mark(b, t),
{
    if has_mark(a, t) {
        let i = choose|i: int| 0 <= i < a.len() && value_type(#[trigger] a[i]) == t;
        vstd::seq_lib::to_multiset_contains(a, a[i]);
        vstd::seq_lib::to_multiset_contains(b, a[i]);
        assert(a.contains(a[i]));
        let j = choose|j: int| 0 <= j < b.len() && b[j] == a[i];
        assert(value_type(b[j]) == t);
    }
    if has_mark(b, t) {
        let j = choose|j: int| 0 <= j < b.len() && value_type(#[trigger] b[j]) == t;
        vstd::seq_lib::to_multiset_contains(b, b[j]);
        vstd::seq_lib::to_multiset_contains(a, b[j]);
        assert(b.contains(b[j]));
        let i = choose|i: int| 0 <= i < a.len() && a[i] == b[j];
        assert(value_type(a[i]) == t);
    }
}

/// The order of a text node's marks does not change its markdown: marks in
/// any order give the same text, as long as there is at most one link mark.
pub proof fn lemma_marks_order_irrelevant(marks: Vec<Json>, reordered: Vec<Json>, text: Seq<char>)
    requires
        reordered@.to_multiset() == marks@.to_multiset(),
        forall|i: int, j: int|
            0 <= i < marks@.len() && 0 <= j < marks@.len() && value_type(#[trigger] marks@[i])
                == "link"@ && value_type(#[trigger] marks@[j]) == "link"@ ==> i == j,
    ensures
        marked_text(text, Some(Json::Array(marks))) == marked_text(
            text,
            Some(Json::Array(reordered)),
        ),
{
    let a = marks@;
    let b = reordered@;
    let link = if has_mark(a, "link"@) {
        a[choose|i: int| 0 <= i < a.len() && value_type(#[trigger] a[i]) == "link"@]
    } else {
        Json::Null
    };
    assert forall|i: int| 0 <= i < a.len() && value_type(#[trigger] a[i]) == "link"@ implies a[i]
        == link by {
        let k = choose|k: int| 0 <= k < a.len() && value_type(#[trigger] a[k]) == "link"@;
        assert(i == k);
    }
    assert forall|j: int| 0 <= j < b.len() && value_type(#[trigger] b[j]) == "link"@ implies b[j]
        == link by {
        vstd::seq_lib::to_multiset_contains(b, b[j]);
        vstd::seq_lib::to_multiset_contains(a, b[j]);
        assert(b.contains(b[j]));
        let i = choose|i: int| 0 <= i < a.len() && a[i] == b[j];
        assert(value_type(a[i]) == "link"@);
    }
    lemma_mark_flags_occurrence(a, link);
    lemma_mark_flags_occurrence(b, link);
    lemma_has_mark_permutation(a, b, "strong"@);
    lemma_has_mark_permutation(a, b, "em"@);
    lemma_has_mark_permutation(a, b, "strike"@);
    lemma_has_mark_permutation(a, b, "code"@);
    lemma_has_mark_permutation(a, b, "link"@);
    assert(mark_flags(a) == mark_flags(b));
}

/// A table header cell renders as a table cell with the same content does:
/// the concatenation of its rendered children with the leading and trailing
/// whitespace taken off.
pub proof fn lemma_table_header_renders_as_cell(
    header: Seq<(String, Json)>,
    cell: Seq<(String, Json)>,
    depth: nat,
)
    requires
        node_type(header) == "tableHeader"@,
        node_type(cell) == "tableCell"@,
        markdown_content(header, depth) == markdown_content(cell, depth),
    ensures
        markdown_object(header, depth) == markdown_object(cell, depth),
        whitespace_stripped(concat(markdown_content(header, depth)), markdown_object(header, depth)),
{
    reveal_strlit("doc");
    reveal_strlit("paragraph");
    reveal_strlit("text");
    reveal_strlit("heading");
    reveal_strlit("bulletList");
    reveal_strlit("orderedList");
    reveal_strlit("listItem");
    reveal_strlit("codeBlock");
    reveal_strlit("blockquote");
    reveal_strlit("hardBreak");
    reveal_strlit("rule");
    reveal_strlit("inlineCard");
    reveal_strlit("table");
    reveal_strlit("tableRow");
    reveal_strlit("tableHeader");
    reveal_strlit("tableCell");
    assert("tableHeader"@[0] != "orderedList"@[0]);
    assert("tableCell"@[0] != "paragraph"@[0]);
    assert("tableCell"@[0] != "codeBlock"@[0]);
    assert("tableCell"@[0] != "hardBreak"@[0]);
    assert("tableHeader"@ != "doc"@);
    assert("tableCell"@ != "doc"@);
    assert("tableHeader"@ != "paragraph"@);
    assert("tableCell"@ != "paragraph"@);
    assert("doc"@.len() == 3);
    assert("paragraph"@.len() == 9);
    assert("text"@.len() == 4);
    assert("heading"@.len() == 7);
    assert("bulletList"@.len() == 10);
    assert("orderedList"@.len() == 11);
    assert("listItem"@.len() == 8);
    assert("codeBlock"@.len() == 9);
    assert("blockquote"@.len() == 10);
    assert("hardBreak"@.len() == 9);
    assert("rule"@.len() == 4);
    assert("inlineCard"@.len() == 10);
    assert("table"@.len() == 5);
    assert("tableRow"@.len() == 8);
    assert("tableHeader"@.len() == 11);
    assert("tableCell"@.len() == 9);
    assert("tableHeader"@ != "text"@);
    assert("tableCell"@ != "text"@);
    assert("tableHeader"@ != "heading"@);
    assert("tableCell"@ != "heading"@);
    assert("tableHeader"@ != "bulletList"@);
    assert("tableCell"@ != "bulletList"@);
    assert("tableHeader"@ != "orderedList"@);
    assert("tableCell"@ != "orderedList"@);
    assert("tableHeader"@ != "listItem"@);
    assert("tableCell"@ != "listItem"@);
    assert("tableHeader"@ != "codeBlock"@);
    assert("tableCell"@ != "codeBlock"@);
    assert("tableHeader"@ != "blockquote"@);
    assert("tableCell"@ != "blockquote"@);
    assert("tableHeader"@ != "hardBreak"@);
    assert("tableCell"@ != "hardBreak"@);
    assert("tableHeader"@ != "rule"@);
    assert("tableCell"@ != "rule"@);
    assert("tableHeader"@ != "inlineCard"@);
    assert("tableCell"@ != "inlineCard"@);
    assert("tableHeader"@ != "table"@);
    assert("tableCell"@ != "table"@);
    assert("tableHeader"@ != "tableRow"@);
    assert("tableCell"@ != "tableRow"@);
    assert(markdown_object(header, depth) == trim(concat(markdown_content(header, depth))));
    assert(markdown_object(cell, depth) == trim(concat(markdown_content(cell, depth))));
    lemma_trim_strips_whitespace(concat(markdown_content(header, depth)));
}

/// An inline card renders as its URL when that URL is non-empty and safe,
/// and as nothing otherwise: a `javascript:`, `data:` or `vbscript:` card URL
/// never reaches the markdown.
pub proof fn lemma_inline_card_url(entries: Seq<(String, Json)>, depth: nat)
    requires
        node_type(entries) == "inlineCard"@,
    ensures
        markdown_object(entries, depth).len() > 0 ==> safe_url(markdown_object(entries, depth)),
        str_or_empty(attr_str(entries, "url"@)).len() > 0 && safe_url(
            str_or_empty(attr_str(entries, "url"@)),
        ) ==> markdown_object(entries, depth) == str_or_empty(attr_str(entries, "url"@)),
        !safe_url(str_or_empty(attr_str(entries, "url"@))) ==> markdown_object(entries, depth).len()
            == 0,
{
    reveal_strlit("doc");
    reveal_strlit("paragraph");
    reveal_strlit("text");
    reveal_strlit("heading");
    reveal_strlit("bulletList");
    reveal_strlit("orderedList");
    reveal_strlit("listItem");
    reveal_strlit("codeBlock");
    reveal_strlit("blockquote");
    reveal_strlit("hardBreak");
    reveal_strlit("rule");
    reveal_strlit("inlineCard");
    assert("doc"@.len() == 3);
    assert("paragraph"@.len() == 9);
    assert("text"@.len() == 4);
    assert("heading"@.len() == 7);
    assert("bulletList"@.len() == 10);
    assert("orderedList"@.len() == 11);
    assert("listItem"@.len() == 8);
    assert("codeBlock"@.len() == 9);
    assert("blockquote"@.len() == 10);
    assert("hardBreak"@.len() == 9);
    assert("rule"@.len() == 4);
    assert("inlineCard"@.len() == 10);
    assert("inlineCard"@[0] != "blockquote"@[0]);
    assert("inlineCard"@[0] != "bulletList"@[0]);
}

} // verus!
