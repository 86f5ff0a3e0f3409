use jira_client::adf::{adf_to_markdown, apply_marks, is_safe_url};
use jira_client::json::{Json, JsonNumber};

fn s(t: &str) -> Json {
    Json::Text(t.to_string())
}

fn obj(entries: Vec<(&str, Json)>) -> Json {
    Json::Object(entries.into_iter().map(|(k, v)| (k.to_string(), v)).collect())
}

fn arr(items: Vec<Json>) -> Json {
    Json::Array(items)
}

fn text_node(t: &str) -> Json {
    obj(vec![("type", s("text")), ("text", s(t))])
}

fn paragraph(children: Vec<Json>) -> Json {
    obj(vec![("type", s("paragraph")), ("content", arr(children))])
}

fn doc(children: Vec<Json>) -> Json {
    obj(vec![("type", s("doc")), ("content", arr(children))])
}

#[test]
fn test_adf_to_markdown_plain_text() {
    let adf = doc(vec![paragraph(vec![text_node("Hello world")])]);
    let md = adf_to_markdown(&adf);
    assert!(md.contains("Hello world"));
}

#[test]
fn test_adf_to_markdown_heading() {
    let adf = doc(vec![obj(vec![
        ("type", s("heading")),
        ("attrs", obj(vec![("level", Json::Number(JsonNumber::PosInt(2)))])),
        ("content", arr(vec![text_node("Section Title")])),
    ])]);
    let md = adf_to_markdown(&adf);
    assert!(md.contains("## Section Title"));
}

#[test]
fn test_adf_to_markdown_string_passthrough() {
    let adf = Json::Text("plain text description".into());
    assert_eq!(adf_to_markdown(&adf), "plain text description");
}

#[test]
fn test_adf_to_markdown_bold_and_italic() {
    let adf = doc(vec![paragraph(vec![obj(vec![
        ("type", s("text")),
        ("text", s("bold text")),
        ("marks", arr(vec![obj(vec![("type", s("strong"))])])),
    ])])]);
    let md = adf_to_markdown(&adf);
    assert!(md.contains("**bold text**"));
}

#[test]
fn test_adf_to_markdown_inline_code() {
    let adf = doc(vec![paragraph(vec![obj(vec![
        ("type", s("text")),
        ("text", s("hotfix/*")),
        ("marks", arr(vec![obj(vec![("type", s("code"))])])),
    ])])]);
    let md = adf_to_markdown(&adf);
    assert!(md.contains("`hotfix/*`"));
}

#[test]
fn test_adf_to_markdown_link_mark() {
    let adf = doc(vec![paragraph(vec![obj(vec![
        ("type", s("text")),
        ("text", s("click here")),
        (
            "marks",
            arr(vec![obj(vec![
                ("type", s("link")),
                ("attrs", obj(vec![("href", s("https://example.com"))])),
            ])]),
        ),
    ])])]);
    let md = adf_to_markdown(&adf);
    assert!(md.contains("[click here](https://example.com)"));
}

#[test]
fn test_adf_to_markdown_inline_card() {
    let adf = doc(vec![paragraph(vec![obj(vec![
        ("type", s("inlineCard")),
        ("attrs", obj(vec![("url", s("https://github.com/org/repo"))])),
    ])])]);
    let md = adf_to_markdown(&adf);
    assert!(md.contains("https://github.com/org/repo"));
}

#[test]
fn test_adf_to_markdown_nested_list() {
    let child_list = obj(vec![
        ("type", s("bulletList")),
        (
            "content",
            arr(vec![obj(vec![
                ("type", s("listItem")),
                ("content", arr(vec![paragraph(vec![text_node("child")])])),
            ])]),
        ),
    ]);
    let adf = doc(vec![obj(vec![
        ("type", s("bulletList")),
        (
            "content",
            arr(vec![obj(vec![
                ("type", s("listItem")),
                ("content", arr(vec![paragraph(vec![text_node("parent")]), child_list])),
            ])]),
        ),
    ])]);
    let md = adf_to_markdown(&adf);
    assert!(md.contains("- parent"));
    assert!(md.contains("  - child"));
}

#[test]
fn paragraph_exact_output() {
    let adf = doc(vec![paragraph(vec![text_node("a")]), paragraph(vec![text_node("b")])]);
    assert_eq!(adf_to_markdown(&adf), "a\n\nb\n\n");
}

#[test]
fn heading_without_level_defaults_to_one() {
    let adf = obj(vec![("type", s("heading")), ("content", arr(vec![text_node("T")]))]);
    assert_eq!(adf_to_markdown(&adf), "# T\n\n");
}

#[test]
fn all_marks_nest_in_canonical_order() {
    let marks = arr(vec![
        obj(vec![
            ("type", s("link")),
            ("attrs", obj(vec![("href", s("https://x.io"))])),
        ]),
        obj(vec![("type", s("strong"))]),
        obj(vec![("type", s("em"))]),
        obj(vec![("type", s("strike"))]),
        obj(vec![("type", s("code"))]),
    ]);
    assert_eq!(apply_marks("t", Some(&marks)), "[***~~`t`~~***](https://x.io)");
}

#[test]
fn unsafe_link_is_dropped() {
    let marks = arr(vec![obj(vec![
        ("type", s("link")),
        ("attrs", obj(vec![("href", s("  JavaScript:alert(1)"))])),
    ])]);
    assert_eq!(apply_marks("x", Some(&marks)), "x");
}

#[test]
fn marks_that_are_not_an_array_leave_text() {
    assert_eq!(apply_marks("x", Some(&s("strong"))), "x");
    assert_eq!(apply_marks("x", None), "x");
}

#[test]
fn unsafe_inline_card_renders_nothing() {
    let card = obj(vec![
        ("type", s("inlineCard")),
        ("attrs", obj(vec![("url", s("data:text/html,hi"))])),
    ]);
    assert_eq!(adf_to_markdown(&card), "");
}

#[test]
fn safe_url_checks() {
    assert!(is_safe_url("https://example.com"));
    assert!(!is_safe_url("javascript:alert(1)"));
    assert!(!is_safe_url(" VBScript:x"));
    assert!(!is_safe_url("DATA:x"));
    assert!(is_safe_url("java script:x"));
}

#[test]
fn code_block_quote_rule_break_and_table() {
    let code = obj(vec![
        ("type", s("codeBlock")),
        ("attrs", obj(vec![("language", s("rust"))])),
        ("content", arr(vec![text_node("fn main() {}")])),
    ]);
    assert_eq!(adf_to_markdown(&code), "```rust\nfn main() {}\n```\n\n");
    let quote = obj(vec![
        ("type", s("blockquote")),
        ("content", arr(vec![paragraph(vec![text_node("one")]), paragraph(vec![text_node("two")])])),
    ]);
    assert_eq!(adf_to_markdown(&quote), "> one\n> \n> two\n> \n\n");
    assert_eq!(adf_to_markdown(&obj(vec![("type", s("rule"))])), "---\n\n");
    assert_eq!(adf_to_markdown(&obj(vec![("type", s("hardBreak"))])), "\n");
    let cell = |t: &str| {
        obj(vec![("type", s("tableCell")), ("content", arr(vec![paragraph(vec![text_node(t)])]))])
    };
    let table = obj(vec![
        ("type", s("table")),
        (
            "content",
            arr(vec![obj(vec![("type", s("tableRow")), ("content", arr(vec![cell("a"), cell("b")]))])]),
        ),
    ]);
    assert_eq!(adf_to_markdown(&table), "| a | b |\n");
}

#[test]
fn ordered_list_and_unknown_nodes() {
    let list = obj(vec![
        ("type", s("orderedList")),
        (
            "content",
            arr(vec![
                obj(vec![("type", s("listItem")), ("content", arr(vec![text_node("x")]))]),
                obj(vec![("type", s("listItem")), ("content", arr(vec![text_node("y")]))]),
            ]),
        ),
    ]);
    assert_eq!(adf_to_markdown(&list), "1. x1. y");
    let unknown = obj(vec![("type", s("panel")), ("content", arr(vec![text_node("z")]))]);
    assert_eq!(adf_to_markdown(&unknown), "z");
    assert_eq!(adf_to_markdown(&Json::Null), "");
    assert_eq!(adf_to_markdown(&Json::Bool(true)), "");
}

#[test]
fn marks_in_any_order_give_the_same_text() {
    let link = || {
        obj(vec![
            ("type", s("link")),
            ("attrs", obj(vec![("href", s("https://example.com"))])),
        ])
    };
    let a = vec![obj(vec![("type", s("strong"))]), link(), obj(vec![("type", s("code"))])];
    let b = vec![obj(vec![("type", s("code"))]), obj(vec![("type", s("strong"))]), link()];
    let ra = apply_marks("x", Some(&Json::Array(a)));
    let rb = apply_marks("x", Some(&Json::Array(b)));
    assert_eq!(ra, "[**`x`**](https://example.com)");
    assert_eq!(ra, rb);
}
