use vstd::prelude::*;
use crate::values::{Number, VizValue};

verus! {

broadcast use vstd::std_specs::vec::group_vec_axioms, vstd::seq::group_seq_axioms;

/// How a span of output is to be coloured.
#[derive(Clone, Copy, PartialEq, Eq, Structural, Debug)]
pub enum Style {
    /// Brackets, braces, the `: ` after a key, commas.
    Punct,
    Key,
    Null,
    Bool,
    Number,
    Text,
}

/// A piece of one output line with its style.
#[derive(Clone, Debug, PartialEq)]
pub struct Span {
    pub text: String,
    pub style: Style,
}

/// One output line: its nesting depth and its spans, left to right.
#[derive(Clone, Debug, PartialEq)]
pub struct Line {
    pub depth: usize,
    pub spans: Vec<Span>,
}

pub type SpanM = (Seq<char>, Style);

pub type LineM = (nat, Seq<SpanM>);

impl View for Span {
    type V = SpanM;

    open spec fn view(&self) -> SpanM {
        (self.text@, self.style)
    }
}

impl View for Line {
    type V = LineM;

    open spec fn view(&self) -> LineM {
        (self.depth as nat, self.spans@.map_values(|s: Span| s@))
    }
}

pub open spec fn lines_view(lines: Seq<Line>) -> Seq<LineM> {
    lines.map_values(|l: Line| l@)
}

pub open spec fn punct(s: Seq<char>) -> SpanM {
    (s, Style::Punct)
}

pub open spec fn quoted(s: Seq<char>) -> Seq<char> {
    seq!['"'] + s + seq!['"']
}

pub open spec fn digit(d: int) -> char {
    seq!['0', '1', '2', '3', '4', '5', '6', '7', '8', '9'][d]
}

/// Decimal digits of a natural number, most significant first.
pub open spec fn nat_text(n: nat) -> Seq<char>
    decreases n,
{
    if n < 10 {
        seq![digit(n as int)]
    } else {
        nat_text(n / 10) + seq![digit(n as int % 10)]
    }
}

/// Decimal text of an integer, with a leading `-` when negative.
pub open spec fn int_text(n: int) -> Seq<char> {
    if n < 0 {
        seq!['-'] + nat_text((-n) as nat)
    } else {
        nat_text(n as nat)
    }
}

/// The spans that start a line holding an object member: the quoted key and `: `.
pub open spec fn key_spans(key: Option<Seq<char>>) -> Seq<SpanM> {
    match key {
        Some(k) => seq![(quoted(k), Style::Key), punct(": "@)],
        None => seq![],
    }
}

/// A comma after every member of a container but the last.
pub open spec fn comma(last: bool) -> Seq<SpanM> {
    if last {
        seq![]
    } else {
        seq![punct(","@)]
    }
}

/// The single span of a value that is neither an array nor an object.
pub open spec fn scalar_span(v: VizValue) -> SpanM {
    match v {
        VizValue::Null => ("null"@, Style::Null),
        VizValue::Bool(b) => (if b { "true"@ } else { "false"@ }, Style::Bool),
        VizValue::Number(Number::Int(n)) => (int_text(n as int), Style::Number),
        VizValue::Number(Number::Decimal(t)) => (t@, Style::Number),
        VizValue::String(s) => (quoted(s@), Style::Text),
        _ => punct(seq![]),
    }
}

/// The lines of one value at `depth`, preceded by its key when it is an object
/// member, and followed by a comma unless it is the last member of its container.
pub open spec fn lines_of(key: Option<Seq<char>>, v: VizValue, depth: nat, last: bool) -> Seq<LineM>
    decreases v, 0nat,
{
    match v {
        VizValue::Array(items) => if items.len() == 0 {
            seq![(depth, key_spans(key) + seq![punct("[]"@)] + comma(last))]
        } else {
            seq![(depth, key_spans(key) + seq![punct("["@)])]
                + items_lines(items@, items@.len(), depth + 1)
                + seq![(depth, seq![punct("]"@)] + comma(last))]
        },
        VizValue::Object(entries) => if entries.len() == 0 {
            seq![(depth, key_spans(key) + seq![punct("{}"@)] + comma(last))]
        } else {
            seq![(depth, key_spans(key) + seq![punct("{"@)])]
                + entries_lines(entries@, entries@.len(), depth + 1)
                + seq![(depth, seq![punct("}"@)] + comma(last))]
        },
        _ => seq![(depth, key_spans(key) + seq![scalar_span(v)] + comma(last))],
    }
}

/// The lines of the first `k` elements of an array whose elements are `items`.
pub open spec fn items_lines(items: Seq<VizValue>, k: nat, depth: nat) -> Seq<LineM>
    decreases items, k,
{
    if k == 0 || k > items.len() {
        seq![]
    } else {
        items_lines(items, (k - 1) as nat, depth)
            + lines_of(None, items[k - 1], depth, k == items.len())
    }
}

/// The lines of the first `k` members of an object whose members are `entries`.
pub open spec fn entries_lines(entries: Seq<(String, VizValue)>, k: nat, depth: nat) -> Seq<LineM>
    decreases entries, k,
{
    if k == 0 || k > entries.len() {
        seq![]
    } else {
        entries_lines(entries, (k - 1) as nat, depth)
            + lines_of(Some(entries[k - 1].0@), entries[k - 1].1, depth, k == entries.len())
    }
}


/// How many levels of containers a value holds: none for a scalar.
pub open spec fn height(v: VizValue) -> nat
    decreases v, 0nat,
{
    match v {
        VizValue::Array(items) => 1 + items_height(items@, items@.len()),
        VizValue::Object(entries) => 1 + entries_height(entries@, entries@.len()),
        _ => 0,
    }
}

/// The greatest height among the first `k` elements.
pub open spec fn items_height(items: Seq<VizValue>, k: nat) -> nat
    decreases items, k,
{
    if k == 0 || k > items.len() {
        0
    } else {
        let a = items_height(items, (k - 1) as nat);
        let b = height(items[k - 1]);
        if a >= b { a } else { b }
    }
}

/// The greatest height among the values of the first `k` members.
pub open spec fn entries_height(entries: Seq<(String, VizValue)>, k: nat) -> nat
    decreases entries, k,
{
    if k == 0 || k > entries.len() {
        0
    } else {
        let a = entries_height(entries, (k - 1) as nat);
        let b = height(entries[k - 1].1);
        if a >= b { a } else { b }
    }
}

proof fn lemma_items_height(items: Seq<VizValue>, k: nat, i: int)
    requires
        k <= items.len(),
        0 <= i < k,
    ensures
        height(items[i]) <= items_height(items, k),
    decreases k,
{
    if i < k - 1 {
        lemma_items_height(items, (k - 1) as nat, i);
    }
}

proof fn lemma_entries_height(entries: Seq<(String, VizValue)>, k: nat, i: int)
    requires
        k <= entries.len(),
        0 <= i < k,
    ensures
        height(entries[i].1) <= entries_height(entries, k),
    decreases k,
{
    if i < k - 1 {
        lemma_entries_height(entries, (k - 1) as nat, i);
    }
}

pub open spec fn spans_view(spans: Seq<Span>) -> Seq<SpanM> {
    spans.map_values(|s: Span| s@)
}

pub open spec fn key_view(key: Option<&String>) -> Option<Seq<char>> {
    match key {
        Some(k) => Some(k@),
        None => None,
    }
}

/// Relies on the `Display` of `i128` (`to_string`): plain decimal digits, with a
/// leading `-` for a negative number.
#[verifier::external_body]
fn int_to_text(n: i128) -> (r: String)
    ensures
        r@ == int_text(n as int),
{
    n.to_string()
}

fn quote(s: &str) -> (r: String)
    ensures
        r@ == quoted(s@),
{
    proof {
        reveal_strlit("\"");
    }
    let mut r = String::from_str("\"");
    r.append(s);
    r.append("\"");
    r
}

fn push_span(spans: &mut Vec<Span>, text: String, style: Style)
    ensures
        spans_view(final(spans)@) == spans_view(old(spans)@).push((text@, style)),
{
    spans.push(Span { text, style });
    assert(spans_view(spans@) =~= spans_view(old(spans)@).push((text@, style)));
}

fn push_line(out: &mut Vec<Line>, depth: usize, spans: Vec<Span>)
    ensures
        lines_view(final(out)@) == lines_view(old(out)@).push((depth as nat, spans_view(spans@))),
{
    let line = Line { depth, spans };
    out.push(line);
    assert(lines_view(out@) =~= lines_view(old(out)@).push((depth as nat, spans_view(line.spans@))));
}

fn key_spans_of(key: Option<&String>) -> (r: Vec<Span>)
    ensures
        spans_view(r@) == key_spans(key_view(key)),
{
    let mut r: Vec<Span> = Vec::new();
    assert(spans_view(r@) =~= seq![]);
    match key {
        Some(k) => {
            push_span(&mut r, quote(k.as_str()), Style::Key);
            push_span(&mut r, String::from_str(": "), Style::Punct);
            assert(spans_view(r@) =~= key_spans(key_view(key)));
        },
        None => {},
    }
    r
}

fn push_comma(spans: &mut Vec<Span>, last: bool)
    ensures
        spans_view(final(spans)@) == spans_view(old(spans)@) + comma(last),
{
    if last {
        assert(spans_view(spans@) =~= spans_view(spans@) + comma(last));
    } else {
        push_span(spans, String::from_str(","), Style::Punct);
        assert(spans_view(spans@) =~= spans_view(old(spans)@) + comma(last));
    }
}

fn scalar_span_of(v: &VizValue) -> (r: Span)
    requires
        !(v is Array),
        !(v is Object),
    ensures
        r@ == scalar_span(*v),
{
    match v {
        VizValue::Null => Span { text: String::from_str("null"), style: Style::Null },
        VizValue::Bool(b) => Span {
            text: if *b { String::from_str("true") } else { String::from_str("false") },
            style: Style::Bool,
        },
        VizValue::Number(Number::Int(n)) => Span { text: int_to_text(*n), style: Style::Number },
        VizValue::Number(Number::Decimal(t)) => Span { text: t.clone(), style: Style::Number },
        VizValue::String(s) => Span { text: quote(s.as_str()), style: Style::Text },
        _ => Span { text: String::new(), style: Style::Punct },
    }
}

/// Appends the lines of `v` at `depth` to `out`.
fn push_value(out: &mut Vec<Line>, key: Option<&String>, v: &VizValue, depth: usize, last: bool)
    requires
        depth + height(*v) <= usize::MAX,
    ensures
        lines_view(final(out)@) == lines_view(old(out)@) + lines_of(key_view(key), *v, depth as nat, last),
    decreases *v,
{
    let ghost start = lines_view(out@);
    let mut spans = key_spans_of(key);
    match v {
        VizValue::Array(items) => {
            if items.len() == 0 {
                push_span(&mut spans, String::from_str("[]"), Style::Punct);
                push_comma(&mut spans, last);
                assert(spans_view(spans@) =~= key_spans(key_view(key)) + seq![punct("[]"@)] + comma(last));
                push_line(out, depth, spans);
                assert(lines_view(out@) =~= start + lines_of(key_view(key), *v, depth as nat, last));
            } else {
                push_span(&mut spans, String::from_str("["), Style::Punct);
                assert(spans_view(spans@) =~= key_spans(key_view(key)) + seq![punct("["@)]);
                push_line(out, depth, spans);
                let ghost base = lines_view(out@);
                let mut i: usize = 0;
                while i < items.len()
                    invariant
                        i <= items@.len(),
                        depth + height(*v) <= usize::MAX,
                        *v == VizValue::Array(*items),
                        lines_view(out@) == base + items_lines(items@, i as nat, (depth + 1) as nat),
                    decreases items@.len() - i,
                {
                    proof {
                        lemma_items_height(items@, items@.len(), i as int);
                    }
                    assert(decreases_to!(*v => items@[i as int]));
                    push_value(out, None, &items[i], depth + 1, i + 1 == items.len());
                    i = i + 1;
                    assert(lines_view(out@) =~= base + items_lines(items@, i as nat, (depth + 1) as nat));
                }
                let mut close: Vec<Span> = Vec::new();
                assert(spans_view(close@) =~= seq![]);
                push_span(&mut close, String::from_str("]"), Style::Punct);
                push_comma(&mut close, last);
                assert(spans_view(close@) =~= seq![punct("]"@)] + comma(last));
                push_line(out, depth, close);
                assert(lines_view(out@) =~= start + lines_of(key_view(key), *v, depth as nat, last));
            }
        },
        VizValue::Object(entries) => {
            if entries.len() == 0 {
                push_span(&mut spans, String::from_str("{}"), Style::Punct);
                push_comma(&mut spans, last);
                assert(spans_view(spans@) =~= key_spans(key_view(key)) + seq![punct("{}"@)] + comma(last));
                push_line(out, depth, spans);
                assert(lines_view(out@) =~= start + lines_of(key_view(key), *v, depth as nat, last));
            } else {
                push_span(&mut spans, String::from_str("{"), Style::Punct);
                assert(spans_view(spans@) =~= key_spans(key_view(key)) + seq![punct("{"@)]);
                push_line(out, depth, spans);
                let ghost base = lines_view(out@);
                let mut i: usize = 0;
                while i < entries.len()
                    invariant
                        i <= entries@.len(),
                        depth + height(*v) <= usize::MAX,
                        *v == VizValue::Object(*entries),
                        lines_view(out@) == base + entries_lines(entries@, i as nat, (depth + 1) as nat),
                    decreases entries@.len() - i,
                {
                    proof {
                        lemma_entries_height(entries@, entries@.len(), i as int);
                    }
                    let entry = &entries[i];
                    assert(decreases_to!(*v => entries@[i as int].1));
                    push_value(out, Some(&entry.0), &entry.1, depth + 1, i + 1 == entries.len());
                    i = i + 1;
                    assert(lines_view(out@) =~= base + entries_lines(entries@, i as nat, (depth + 1) as nat));
                }
                let mut close: Vec<Span> = Vec::new();
                assert(spans_view(close@) =~= seq![]);
                push_span(&mut close, String::from_str("}"), Style::Punct);
                push_comma(&mut close, last);
                assert(spans_view(close@) =~= seq![punct("}"@)] + comma(last));
                push_line(out, depth, close);
                assert(lines_view(out@) =~= start + lines_of(key_view(key), *v, depth as nat, last));
            }
        },
        _ => {
            let sp = scalar_span_of(v);
            push_span(&mut spans, sp.text, sp.style);
            push_comma(&mut spans, last);
            assert(spans_view(spans@) =~= key_spans(key_view(key)) + seq![scalar_span(*v)] + comma(last));
            push_line(out, depth, spans);
            assert(lines_view(out@) =~= start + lines_of(key_view(key), *v, depth as nat, last));
        },
    }
}

/// The lines of a whole document: `v` at depth zero, with no key and no comma.
pub fn render(v: &VizValue) -> (r: Vec<Line>)
    requires
        height(*v) < usize::MAX,
    ensures
        lines_view(r@) == lines_of(None, *v, 0, true),
{
    let mut out: Vec<Line> = Vec::new();
    push_value(&mut out, None, v, 0, true);
    assert(lines_view(out@) =~= lines_of(None, *v, 0, true));
    out
}


pub open spec fn spaces(n: nat) -> Seq<char> {
    Seq::new(n, |i: int| ' ')
}

/// The texts of the spans, one after another.
pub open spec fn spans_text(spans: Seq<SpanM>) -> Seq<char>
    decreases spans.len(),
{
    if spans.len() == 0 {
        seq![]
    } else {
        spans_text(spans.drop_last()) + spans.last().0
    }
}

/// A line as text: `depth × width` spaces, then its spans.
pub open spec fn line_text(line: LineM, width: nat) -> Seq<char> {
    spaces(line.0 * width) + spans_text(line.1)
}

/// Lines as text, each ended by a newline.
pub open spec fn document_text(lines: Seq<LineM>, width: nat) -> Seq<char>
    decreases lines.len(),
{
    if lines.len() == 0 {
        seq![]
    } else {
        document_text(lines.drop_last(), width) + line_text(lines.last(), width) + seq!['\n']
    }
}

/// The leading spaces of a line at `depth` when each level is `width` wide.
pub fn indent_text(depth: usize, width: usize) -> (r: String)
    ensures
        r@ == spaces(depth as nat * width as nat),
{
    let mut r = String::new();
    let mut d: usize = 0;
    while d < depth
        invariant
            d <= depth,
            r@ == spaces(d as nat * width as nat),
        decreases depth - d,
    {
        let mut j: usize = 0;
        while j < width
            invariant
                d < depth,
                j <= width,
                r@ == spaces(d as nat * width as nat + j as nat),
            decreases width - j,
        {
            proof {
                reveal_strlit(" ");
            }
            r.append(" ");
            j = j + 1;
            assert(r@ =~= spaces(d as nat * width as nat + j as nat));
        }
        assert(d as nat * width as nat + width as nat == (d as nat + 1) * width as nat)
            by (nonlinear_arith);
        d = d + 1;
    }
    assert(r@ =~= spaces(depth as nat * width as nat));
    r
}

/// One line as plain text, without its newline.
pub fn line_to_text(line: &Line, width: usize) -> (r: String)
    ensures
        r@ == line_text(line@, width as nat),
{
    let mut r = indent_text(line.depth, width);
    let ghost sv = spans_view(line.spans@);
    let mut j: usize = 0;
    assert(sv.take(0) =~= seq![]);
    assert(r@ =~= spaces(line.depth as nat * width as nat) + spans_text(sv.take(0)));
    while j < line.spans.len()
        invariant
            j <= line.spans@.len(),
            sv == spans_view(line.spans@),
            r@ == spaces(line.depth as nat * width as nat) + spans_text(sv.take(j as int)),
        decreases line.spans@.len() - j,
    {
        r.append(line.spans[j].text.as_str());
        assert(sv.take(j as int + 1).drop_last() =~= sv.take(j as int));
        j = j + 1;
        assert(r@ =~= spaces(line.depth as nat * width as nat) + spans_text(sv.take(j as int)));
    }
    assert(sv.take(j as int) =~= sv);
    r
}

/// Lines as plain text, each ended by a newline: the output with colour turned off.
pub fn to_text(lines: &Vec<Line>, width: usize) -> (r: String)
    ensures
        r@ == document_text(lines_view(lines@), width as nat),
{
    let ghost lv = lines_view(lines@);
    let mut r = String::new();
    let mut i: usize = 0;
    assert(lv.take(0) =~= seq![]);
    while i < lines.len()
        invariant
            i <= lines@.len(),
            lv == lines_view(lines@),
            r@ == document_text(lv.take(i as int), width as nat),
        decreases lines@.len() - i,
    {
        let t = line_to_text(&lines[i], width);
        proof {
            reveal_strlit("\n");
        }
        r.append(t.as_str());
        r.append("\n");
        assert(lv.take(i as int + 1).drop_last() =~= lv.take(i as int));
        i = i + 1;
        assert(r@ =~= document_text(lv.take(i as int), width as nat));
    }
    assert(lv.take(i as int) =~= lv);
    r
}

} // verus!
