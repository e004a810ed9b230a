use vizconf::render::{render, to_text, Line, Style};
use vizconf::session::{print_parsed_data, AppError};
use vizconf::values::{Number, VizValue};

fn s(t: &str) -> String {
    t.to_string()
}

fn integer(n: i128) -> VizValue {
    VizValue::Number(Number::Int(n))
}

fn obj(entries: Vec<(&str, VizValue)>) -> VizValue {
    VizValue::Object(entries.into_iter().map(|(k, v)| (s(k), v)).collect())
}

fn text_of(v: &VizValue, width: usize) -> String {
    let lines = print_parsed_data(v).expect("root is an object");
    to_text(&lines, width)
}

#[test]
fn scenario_nested_document_indent_two() {
    let v = obj(vec![
        ("a", integer(1)),
        ("b", VizValue::Array(vec![VizValue::Bool(true), VizValue::Null])),
    ]);
    let expected = "{\n  \"a\": 1,\n  \"b\": [\n    true,\n    null\n  ]\n}\n";
    assert_eq!(text_of(&v, 2), expected);
}

#[test]
fn empty_root_object_is_braces() {
    assert_eq!(text_of(&obj(vec![]), 2), "{}\n");
}

#[test]
fn empty_nested_containers_are_inline() {
    let v = obj(vec![("x", VizValue::Array(vec![])), ("y", obj(vec![]))]);
    assert_eq!(text_of(&v, 2), "{\n  \"x\": [],\n  \"y\": {}\n}\n");
}

#[test]
fn key_order_is_insertion_order() {
    let v = obj(vec![("zeta", integer(1)), ("alpha", integer(2)), ("mid", integer(3))]);
    assert_eq!(
        text_of(&v, 1),
        "{\n \"zeta\": 1,\n \"alpha\": 2,\n \"mid\": 3\n}\n"
    );
}

#[test]
fn array_order_is_kept() {
    let v = obj(vec![("l", VizValue::Array(vec![integer(3), integer(1), integer(2)]))]);
    assert_eq!(text_of(&v, 2), "{\n  \"l\": [\n    3,\n    1,\n    2\n  ]\n}\n");
}

#[test]
fn indent_zero_has_no_leading_spaces() {
    let v = obj(vec![("a", obj(vec![("b", VizValue::Null)]))]);
    assert_eq!(text_of(&v, 0), "{\n\"a\": {\n\"b\": null\n}\n}\n");
}

#[test]
fn indent_ten_multiplies_by_depth() {
    let v = obj(vec![("a", VizValue::Array(vec![VizValue::Bool(false)]))]);
    let pad10 = " ".repeat(10);
    let pad20 = " ".repeat(20);
    let expected = format!("{{\n{pad10}\"a\": [\n{pad20}false\n{pad10}]\n}}\n");
    assert_eq!(text_of(&v, 10), expected);
}

#[test]
fn commas_follow_all_but_last_member() {
    let v = obj(vec![
        ("a", VizValue::Array(vec![integer(1), integer(2)])),
        ("b", obj(vec![("c", VizValue::Null), ("d", VizValue::Null)])),
    ]);
    let text = text_of(&v, 2);
    let lines: Vec<&str> = text.lines().collect();
    assert_eq!(
        lines,
        vec![
            "{", "  \"a\": [", "    1,", "    2", "  ],", "  \"b\": {", "    \"c\": null,",
            "    \"d\": null", "  }", "}",
        ]
    );
}

#[test]
fn scalars_print_in_natural_form() {
    let v = obj(vec![
        ("neg", integer(-42)),
        ("zero", integer(0)),
        ("big", integer(18446744073709551615)),
        ("f", VizValue::Number(Number::Decimal(s("1.5")))),
        ("s", VizValue::String(s("hi there"))),
        ("t", VizValue::Bool(true)),
        ("n", VizValue::Null),
    ]);
    let expected = "{\n  \"neg\": -42,\n  \"zero\": 0,\n  \"big\": 18446744073709551615,\n  \"f\": 1.5,\n  \"s\": \"hi there\",\n  \"t\": true,\n  \"n\": null\n}\n";
    assert_eq!(text_of(&v, 2), expected);
}

#[test]
fn spans_carry_styles() {
    let v = obj(vec![("k", VizValue::String(s("v")))]);
    let lines: Vec<Line> = render(&v);
    assert_eq!(lines.len(), 3);
    let member = &lines[1];
    assert_eq!(member.depth, 1);
    let styles: Vec<Style> = member.spans.iter().map(|sp| sp.style).collect();
    assert_eq!(styles, vec![Style::Key, Style::Punct, Style::Text]);
    assert_eq!(member.spans[0].text, "\"k\"");
    assert_eq!(member.spans[2].text, "\"v\"");
}

#[test]
fn plain_text_has_no_escape_sequences() {
    let v = obj(vec![("a", VizValue::Array(vec![integer(1), VizValue::String(s("x"))]))]);
    assert!(!text_of(&v, 4).contains('\u{1b}'));
}

#[test]
fn rendering_is_deterministic() {
    let make = || obj(vec![("a", VizValue::Array(vec![integer(1), obj(vec![("b", VizValue::Null)])]))]);
    assert_eq!(text_of(&make(), 3), text_of(&make(), 3));
}

#[test]
fn non_object_root_is_refused() {
    assert_eq!(print_parsed_data(&VizValue::Array(vec![])).unwrap_err(), AppError::NotAnObject);
    assert_eq!(print_parsed_data(&integer(1)).unwrap_err(), AppError::NotAnObject);
}
