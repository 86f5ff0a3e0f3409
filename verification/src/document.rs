//! JSON request bodies sent to Jira: a plain-text comment wrapped in ADF, and
//! a status transition.
use vstd::prelude::*;

use crate::adf::{markdown, markdown_items, node_type};
use crate::json::{entry, first_key, Json, JsonNumber};
use crate::text::{chars_of, concat, lines, lines_of, owned, string_of};

verus! {

// ---------------------------------------------------------------------------
// Specification
// ---------------------------------------------------------------------------

/// An ADF text node holding `line`: `{"text": line, "type": "text"}`.
pub open spec fn is_text_node(j: Json, line: Seq<char>) -> bool {
    &&& j matches Json::Object(e)
    &&& e@.len() == 2
    &&& e@[0].0@ == "text"@
    &&& e@[0].1 matches Json::Text(t)
    &&& t@ == line
    &&& e@[1].0@ == "type"@
    &&& e@[1].1 matches Json::Text(ty)
    &&& ty@ == "text"@
}

/// An ADF paragraph holding one text node with `line`:
/// `{"content": [text], "type": "paragraph"}`.
pub open spec fn is_paragraph(j: Json, line: Seq<char>) -> bool {
    &&& j matches Json::Object(e)
    &&& e@.len() == 2
    &&& e@[0].0@ == "content"@
    &&& e@[0].1 matches Json::Array(items)
    &&& items@.len() == 1
    &&& is_text_node(items@[0], line)
    &&& e@[1].0@ == "type"@
    &&& e@[1].1 matches Json::Text(ty)
    &&& ty@ == "paragraph"@
}

/// An ADF document with one paragraph per line of `text`:
/// `{"content": [paragraphs], "type": "doc", "version": 1}`.
pub open spec fn is_line_document(j: Json, text: Seq<char>) -> bool {
    &&& j matches Json::Object(e)
    &&& e@.len() == 3
    &&& e@[0].0@ == "content"@
    &&& e@[0].1 matches Json::Array(ps)
    &&& ps@.len() == lines(text).len()
    &&& forall|k: int| 0 <= k < ps@.len() ==> is_paragraph(#[trigger] ps@[k], lines(text)[k])
    &&& e@[1].0@ == "type"@
    &&& e@[1].1 matches Json::Text(ty)
    &&& ty@ == "doc"@
    &&& e@[2].0@ == "version"@
    &&& e@[2].1 == Json::Number(JsonNumber::PosInt(1))
}

/// The body of an add-comment request: `{"body": document}`.
pub open spec fn is_comment_body(j: Json, text: Seq<char>) -> bool {
    &&& j matches Json::Object(e)
    &&& e@.len() == 1
    &&& e@[0].0@ == "body"@
    &&& is_line_document(e@[0].1, text)
}

/// The body of a transition request: `{"transition": {"id": id}}`.
pub open spec fn is_transition_body(j: Json, id: Seq<char>) -> bool {
    &&& j matches Json::Object(e)
    &&& e@.len() == 1
    &&& e@[0].0@ == "transition"@
    &&& e@[0].1 matches Json::Object(inner)
    &&& inner@.len() == 1
    &&& inner@[0].0@ == "id"@
    &&& inner@[0].1 matches Json::Text(t)
    &&& t@ == id
}

// ---------------------------------------------------------------------------
// Implementation
// ---------------------------------------------------------------------------

/// One ADF object entry.
fn field(key: &str, value: Json) -> (r: (String, Json))
    ensures
        r.0@ == key@,
        r.1 == value,
{
    (owned(key), value)
}

/// A text node holding `line`.
fn text_node(line: &[char]) -> (r: Json)
    ensures
        is_text_node(r, line@),
{
    let mut e: Vec<(String, Json)> = Vec::new();
    e.push(field("text", Json::Text(string_of(line))));
    e.push(field("type", Json::Text(owned("text"))));
    Json::Object(e)
}

/// A paragraph holding one text node with `line`.
fn paragraph(line: &[char]) -> (r: Json)
    ensures
        is_paragraph(r, line@),
{
    let mut items: Vec<Json> = Vec::new();
    items.push(text_node(line));
    let mut e: Vec<(String, Json)> = Vec::new();
    e.push(field("content", Json::Array(items)));
    e.push(field("type", Json::Text(owned("paragraph"))));
    Json::Object(e)
}

/// An ADF document with one paragraph per line of `text`.
pub fn line_document(text: &str) -> (r: Json)
    ensures
        is_line_document(r, text@),
{
    let cs = chars_of(text);
    let ls = lines_of(cs.as_slice());
    let ghost lv = ls@.map_values(|l: Vec<char>| l@);
    let mut ps: Vec<Json> = Vec::new();
    let mut i: usize = 0;
    while i < ls.len()
        invariant
            i <= ls.len(),
            lv == ls@.map_values(|l: Vec<char>| l@),
            lv == lines(text@),
            ps@.len() == i,
            forall|k: int| 0 <= k < i ==> is_paragraph(#[trigger] ps@[k], lv[k]),
        decreases ls.len() - i,
    {
        ps.push(paragraph(ls[i].as_slice()));
        i += 1;
    }
    let mut e: Vec<(String, Json)> = Vec::new();
    e.push(field("content", Json::Array(ps)));
    e.push(field("type", Json::Text(owned("doc"))));
    e.push(field("version", Json::Number(JsonNumber::PosInt(1))));
    Json::Object(e)
}

/// The body of an add-comment request: the text as an ADF document with one
/// paragraph per line.
pub fn comment_body(text: &str) -> (r: Json)
    ensures
        is_comment_body(r, text@),
{
    let mut e: Vec<(String, Json)> = Vec::new();
    e.push(field("body", line_document(text)));
    Json::Object(e)
}

/// The body of a transition request.
pub fn transition_body(transition_id: &str) -> (r: Json)
    ensures
        is_transition_body(r, transition_id@),
{
    let mut inner: Vec<(String, Json)> = Vec::new();
    inner.push(field("id", Json::Text(owned(transition_id))));
    let mut e: Vec<(String, Json)> = Vec::new();
    e.push(field("transition", Json::Object(inner)));
    Json::Object(e)
}

// ---------------------------------------------------------------------------
// Law
// ---------------------------------------------------------------------------

/// Each line followed by a blank line.
pub open spec fn lines_as_paragraphs(text: Seq<char>) -> Seq<char> {
    concat(lines(text).map_values(|l: Seq<char>| l + "\n\n"@))
}

proof fn lemma_literals_distinct()
    ensures
        "content"@ != "type"@,
        "text"@ != "type"@,
        "version"@ != "type"@,
        "content"@ != "marks"@,
        "text"@ != "marks"@,
        "type"@ != "marks"@,
        "doc"@ != "paragraph"@,
        "text"@ != "doc"@,
        "text"@ != "paragraph"@,
{
    reveal_strlit("content");
    reveal_strlit("type");
    reveal_strlit("text");
    reveal_strlit("version");
    reveal_strlit("marks");
    reveal_strlit("doc");
    reveal_strlit("paragraph");
    assert("content"@[0] != "type"@[0]);
    assert("text"@[1] != "type"@[1]);
    assert("version"@[0] != "type"@[0]);
    assert("content"@[0] != "marks"@[0]);
    assert("text"@[0] != "marks"@[0]);
    assert("type"@[0] != "marks"@[0]);
    assert("doc"@[0] != "paragraph"@[0]);
    assert("text"@[0] != "doc"@[0]);
    assert("text"@[0] != "paragraph"@[0]);
}

proof fn lemma_paragraph_renders(j: Json, line: Seq<char>, depth: nat)
    requires
        is_paragraph(j, line),
    ensures
        markdown(j, depth) == line + "\n\n"@,
{
    lemma_literals_distinct();
    let e = j->Object_0@;
    assert(first_key(e, "type"@) == Some(1int)) by {
        assert(first_key(e.drop_first(), "type"@) == Some(0int));
    }
    assert(node_type(e) == "paragraph"@);
    assert(first_key(e, "content"@) == Some(0int));
    let items = e[0].1->Array_0@;
    let t = items[0];
    let te = t->Object_0@;
    assert(first_key(te, "type"@) == Some(1int)) by {
        assert(first_key(te.drop_first(), "type"@) == Some(0int));
    }
    assert(first_key(te, "text"@) == Some(0int));
    assert(first_key(te, "marks"@) is None) by {
        assert(te.drop_first().drop_first().len() == 0);
        assert(first_key(te.drop_first().drop_first(), "marks"@) is None);
        assert(te.drop_first()[0] == te[1]);
        assert(first_key(te.drop_first(), "marks"@) is None);
    }
    assert(node_type(te) == "text"@);
    assert(markdown(t, depth) == line);
    assert(items.drop_last() =~= Seq::<Json>::empty());
    assert(items.last() == t);
    assert(markdown_items(items.drop_last(), depth) =~= Seq::<Seq<char>>::empty());
    assert(markdown_items(items, depth) =~= seq![line]);
    assert(concat(seq![line]) =~= line) by {
        assert(seq![line].drop_last() =~= Seq::<Seq<char>>::empty());
        assert(concat(seq![line].drop_last()) =~= Seq::<char>::empty());
        assert(seq![line].last() == line);
    }
}

proof fn lemma_paragraphs_render(ps: Seq<Json>, ls: Seq<Seq<char>>)
    requires
        ps.len() == ls.len(),
        forall|k: int| 0 <= k < ps.len() ==> is_paragraph(#[trigger] ps[k], ls[k]),
    ensures
        markdown_items(ps, 0) =~= ls.map_values(|l: Seq<char>| l + "\n\n"@),
    decreases ps.len(),
{
    if ps.len() > 0 {
        lemma_paragraphs_render(ps.drop_last(), ls.drop_last());
        lemma_paragraph_renders(ps.last(), ls.last(), 0);
        assert(ls.map_values(|l: Seq<char>| l + "\n\n"@).drop_last() =~= ls.drop_last().map_values(
            |l: Seq<char>| l + "\n\n"@,
        ));
    }
}

/// A comment posted from plain text reads back, through the ADF conversion,
/// as its lines, each followed by a blank line.
pub proof fn lemma_line_document_renders(doc: Json, text: Seq<char>)
    requires
        is_line_document(doc, text),
    ensures
        markdown(doc, 0) == lines_as_paragraphs(text),
{
    lemma_literals_distinct();
    let e = doc->Object_0@;
    assert(first_key(e, "type"@) == Some(1int)) by {
        assert(first_key(e.drop_first(), "type"@) == Some(0int));
    }
    assert(node_type(e) == "doc"@);
    assert(first_key(e, "content"@) == Some(0int));
    let ps = e[0].1->Array_0@;
    lemma_paragraphs_render(ps, lines(text));
}

} // verus!
