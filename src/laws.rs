use vstd::prelude::*;
use crate::render::{
    comma, document_text, entries_lines, items_lines, key_spans, line_text, lines_of, punct,
    quoted, scalar_span, spaces, spans_text, Style,
};
use crate::render::lines_view;
use crate::session::{after_parse, Action, Session};
use crate::render::{digit, int_text, nat_text, LineM, SpanM};
use crate::values::{Number, VizValue};

verus! {

broadcast use vstd::std_specs::vec::group_vec_axioms, vstd::seq::group_seq_axioms;

/// The first line of a value is at its own depth and starts with its key, if
/// it has one; its last line is at its own depth too.
pub proof fn lemma_first_and_last_line(key: Option<Seq<char>>, v: VizValue, depth: nat, last: bool)
    ensures
        lines_of(key, v, depth, last).len() >= 1,
        lines_of(key, v, depth, last)[0].0 == depth,
        lines_of(key, v, depth, last)[0].1.len() >= key_spans(key).len(),
        lines_of(key, v, depth, last)[0].1.subrange(0, key_spans(key).len() as int) == key_spans(key),
        lines_of(key, v, depth, last).last().0 == depth,
{
    let lines = lines_of(key, v, depth, last);
    assert(lines[0].1.subrange(0, key_spans(key).len() as int) =~= key_spans(key));
}

proof fn lemma_entries_prefix(entries: Seq<(String, VizValue)>, a: nat, b: nat, depth: nat)
    requires
        a <= b <= entries.len(),
    ensures
        entries_lines(entries, a, depth).len() <= entries_lines(entries, b, depth).len(),
        a < b ==> entries_lines(entries, a, depth).len() < entries_lines(entries, b, depth).len(),
        entries_lines(entries, b, depth).subrange(0, entries_lines(entries, a, depth).len() as int)
            == entries_lines(entries, a, depth),
    decreases b,
{
    if a < b {
        lemma_entries_prefix(entries, a, (b - 1) as nat, depth);
        lemma_first_and_last_line(Some(entries[b - 1].0@), entries[b - 1].1, depth, b == entries.len());
        let pa = entries_lines(entries, a, depth);
        let pb1 = entries_lines(entries, (b - 1) as nat, depth);
        let blk = lines_of(Some(entries[b - 1].0@), entries[b - 1].1, depth, b == entries.len());
        assert((pb1 + blk).subrange(0, pa.len() as int) =~= pb1.subrange(0, pa.len() as int));
    } else {
        assert(entries_lines(entries, b, depth).subrange(0, entries_lines(entries, a, depth).len() as int)
            =~= entries_lines(entries, a, depth));
    }
}

proof fn lemma_items_prefix(items: Seq<VizValue>, a: nat, b: nat, depth: nat)
    requires
        a <= b <= items.len(),
    ensures
        items_lines(items, a, depth).len() <= items_lines(items, b, depth).len(),
        a < b ==> items_lines(items, a, depth).len() < items_lines(items, b, depth).len(),
        items_lines(items, b, depth).subrange(0, items_lines(items, a, depth).len() as int)
            == items_lines(items, a, depth),
    decreases b,
{
    if a < b {
        lemma_items_prefix(items, a, (b - 1) as nat, depth);
        lemma_first_and_last_line(None, items[b - 1], depth, b == items.len());
        let pa = items_lines(items, a, depth);
        let pb1 = items_lines(items, (b - 1) as nat, depth);
        let blk = lines_of(None, items[b - 1], depth, b == items.len());
        assert((pb1 + blk).subrange(0, pa.len() as int) =~= pb1.subrange(0, pa.len() as int));
    } else {
        assert(items_lines(items, b, depth).subrange(0, items_lines(items, a, depth).len() as int)
            =~= items_lines(items, a, depth));
    }
}

/// Where the lines of member `k` of an object start, counting its opening line.
pub open spec fn member_start(entries: Seq<(String, VizValue)>, k: nat, depth: nat) -> int {
    1 + entries_lines(entries, k, depth + 1).len() as int
}

/// Where the lines of element `k` of an array start, counting its opening line.
pub open spec fn element_start(items: Seq<VizValue>, k: nat, depth: nat) -> int {
    1 + items_lines(items, k, depth + 1).len() as int
}

/// The members of an object come out in insertion order: member `k` is rendered
/// as one block, one level deeper, starting with its key, and the block of an
/// earlier member `j` starts before it.
pub proof fn lemma_object_order(
    key: Option<Seq<char>>,
    entries: Vec<(String, VizValue)>,
    depth: nat,
    last: bool,
    j: nat,
    k: nat,
)
    requires
        j < k < entries@.len(),
    ensures
        ({
            let lines = lines_of(key, VizValue::Object(entries), depth, last);
            let block = lines_of(Some(entries@[k as int].0@), entries@[k as int].1, depth + 1, k + 1 == entries@.len());
            let p = member_start(entries@, k, depth);
            &&& lines.subrange(p, p + block.len()) == block
            &&& block[0].1[0] == (quoted(entries@[k as int].0@), Style::Key)
            &&& member_start(entries@, j, depth) < p
        }),
{
    let s = entries@;
    let n = s.len();
    let d1 = depth + 1;
    let lines = lines_of(key, VizValue::Object(entries), depth, last);
    let block = lines_of(Some(s[k as int].0@), s[k as int].1, d1, k + 1 == n);
    lemma_entries_prefix(s, j, k, d1);
    lemma_entries_prefix(s, (k + 1) as nat, n, d1);
    lemma_first_and_last_line(Some(s[k as int].0@), s[k as int].1, d1, k + 1 == n);
    let pk = entries_lines(s, k, d1);
    let pk1 = entries_lines(s, (k + 1) as nat, d1);
    assert(pk1 == pk + block);
    let all = entries_lines(s, n, d1);
    assert(all.subrange(pk.len() as int, (pk.len() + block.len()) as int) =~= block) by {
        assert(all.subrange(0, pk1.len() as int) == pk1);
        assert forall|i: int| 0 <= i < block.len() implies all[pk.len() + i] == block[i] by {
            assert(all.subrange(0, pk1.len() as int)[pk.len() + i] == pk1[pk.len() + i]);
        }
    }
    let open_line = lines[0];
    assert(lines == seq![open_line] + all + seq![lines.last()]);
    assert(lines.subrange(1 + pk.len() as int, 1 + pk.len() + block.len() as int) =~= block) by {
        assert forall|i: int| 0 <= i < block.len() implies lines[1 + pk.len() + i] == block[i] by {
            assert(lines[1 + pk.len() + i] == all[pk.len() + i]);
        }
    }
    assert(block[0].1[0] == key_spans(Some(s[k as int].0@))[0]);
}

/// The elements of an array come out in their order: element `k` is rendered as
/// one block, one level deeper, and the block of an earlier element `j` starts
/// before it.
pub proof fn lemma_array_order(
    key: Option<Seq<char>>,
    items: Vec<VizValue>,
    depth: nat,
    last: bool,
    j: nat,
    k: nat,
)
    requires
        j < k < items@.len(),
    ensures
        ({
            let lines = lines_of(key, VizValue::Array(items), depth, last);
            let block = lines_of(None, items@[k as int], depth + 1, k + 1 == items@.len());
            let p = element_start(items@, k, depth);
            &&& lines.subrange(p, p + block.len()) == block
            &&& element_start(items@, j, depth) < p
        }),
{
    let s = items@;
    let n = s.len();
    let d1 = depth + 1;
    let lines = lines_of(key, VizValue::Array(items), depth, last);
    let block = lines_of(None, s[k as int], d1, k + 1 == n);
    lemma_items_prefix(s, j, k, d1);
    lemma_items_prefix(s, (k + 1) as nat, n, d1);
    let pk = items_lines(s, k, d1);
    let pk1 = items_lines(s, (k + 1) as nat, d1);
    assert(pk1 == pk + block);
    let all = items_lines(s, n, d1);
    assert(all.subrange(pk.len() as int, (pk.len() + block.len()) as int) =~= block) by {
        assert(all.subrange(0, pk1.len() as int) == pk1);
        assert forall|i: int| 0 <= i < block.len() implies all[pk.len() + i] == block[i] by {
            assert(all.subrange(0, pk1.len() as int)[pk.len() + i] == pk1[pk.len() + i]);
        }
    }
    let open_line = lines[0];
    assert(lines == seq![open_line] + all + seq![lines.last()]);
    assert(lines.subrange(1 + pk.len() as int, 1 + pk.len() + block.len() as int) =~= block) by {
        assert forall|i: int| 0 <= i < block.len() implies lines[1 + pk.len() + i] == block[i] by {
            assert(lines[1 + pk.len() + i] == all[pk.len() + i]);
        }
    }
}


/// Every member of a container but the last ends with a comma, and the last
/// does not: the final span of a member's last line is a comma exactly when
/// more members follow.
pub proof fn lemma_trailing_comma(key: Option<Seq<char>>, v: VizValue, depth: nat, last: bool)
    ensures
        lines_of(key, v, depth, last).last().1.len() >= 1,
        (lines_of(key, v, depth, last).last().1.last() == punct(","@)) <==> !last,
{
    reveal_strlit(",");
    reveal_strlit("[]");
    reveal_strlit("]");
    reveal_strlit("{}");
    reveal_strlit("}");
    let lines = lines_of(key, v, depth, last);
    match v {
        VizValue::Array(items) => {
            if last {
                if items.len() == 0 {
                    assert(lines.last().1.last().0 != ","@) by {
                        assert(lines.last().1.last().0 == "[]"@);
                        assert("[]"@.len() != ","@.len());
                    }
                } else {
                    assert(lines.last().1.last().0 != ","@) by {
                        assert(lines.last().1.last().0 == "]"@);
                        assert("]"@[0] != ","@[0]);
                    }
                }
            }
        },
        VizValue::Object(entries) => {
            if last {
                if entries.len() == 0 {
                    assert(lines.last().1.last().0 != ","@) by {
                        assert(lines.last().1.last().0 == "{}"@);
                        assert("{}"@.len() != ","@.len());
                    }
                } else {
                    assert(lines.last().1.last().0 != ","@) by {
                        assert(lines.last().1.last().0 == "}"@);
                        assert("}"@[0] != ","@[0]);
                    }
                }
            }
        },
        _ => {
            assert(scalar_span(v).1 != Style::Punct);
        },
    }
}

/// A value at depth `d` is indented by exactly `d × width` spaces: on its first
/// line, and on its last line, where a container closes.
pub proof fn lemma_indentation(key: Option<Seq<char>>, v: VizValue, depth: nat, last: bool, width: nat)
    ensures
        ({
            let lines = lines_of(key, v, depth, last);
            &&& line_text(lines[0], width) == spaces(depth * width) + spans_text(lines[0].1)
            &&& line_text(lines.last(), width) == spaces(depth * width) + spans_text(lines.last().1)
        }),
{
    lemma_first_and_last_line(key, v, depth, last);
}

/// An empty array renders as `[]` and an empty object as `{}`, each on one line;
/// an empty document is the single line `{}`.
pub proof fn lemma_empty_containers(
    key: Option<Seq<char>>,
    items: Vec<VizValue>,
    entries: Vec<(String, VizValue)>,
    depth: nat,
    last: bool,
    width: nat,
)
    requires
        items@.len() == 0,
        entries@.len() == 0,
    ensures
        lines_of(key, VizValue::Array(items), depth, last) == seq![
            (depth, key_spans(key) + seq![punct("[]"@)] + comma(last)),
        ],
        lines_of(key, VizValue::Object(entries), depth, last) == seq![
            (depth, key_spans(key) + seq![punct("{}"@)] + comma(last)),
        ],
        document_text(lines_of(None, VizValue::Object(entries), 0, true), width) == "{}\n"@,
{
    reveal_strlit("{}\n");
    reveal_strlit("{}");
    let lines = lines_of(None, VizValue::Object(entries), 0, true);
    let spans = lines[0].1;
    assert(spans =~= seq![punct("{}"@)]);
    assert(spans.drop_last() =~= seq![]);
    assert(spans_text(spans.drop_last()) == Seq::<char>::empty());
    assert(spans.last().0 == "{}"@);
    assert(spans_text(spans) =~= "{}"@);
    assert(spaces(0 * width) =~= seq![]);
    assert(lines.drop_last() =~= seq![]);
    assert(line_text(lines.last(), width) =~= "{}"@);
    assert(document_text(lines.drop_last(), width) == Seq::<char>::empty());
    assert(document_text(lines, width) =~= "{}\n"@);
}


/// Rendering is a function of the tree and the indent width alone: two runs on
/// the same parsed input and width, one in colour and one not, print the same
/// lines, hence byte-identical plain text, or fail with the same error.
pub proof fn lemma_color_is_only_a_flag(
    c1: bool,
    c2: bool,
    width: usize,
    parsed: Result<VizValue, String>,
    n1: Session,
    a1: Action,
    n2: Session,
    a2: Action,
)
    requires
        after_parse(c1, width, parsed, n1, a1),
        after_parse(c2, width, parsed, n2, a2),
    ensures
        a1 is Print <==> a2 is Print,
        a1 is Fail ==> a1 == a2,
        a1 is Print ==> lines_view(a1->lines@) == lines_view(a2->lines@),
        a1 is Print ==> document_text(lines_view(a1->lines@), width as nat) == document_text(
            lines_view(a2->lines@),
            width as nat,
        ),
{
}


/// The escape character that starts every colour sequence.
pub open spec fn escape() -> char {
    '\u{1b}'
}

pub open spec fn no_char(s: Seq<char>, c: char) -> bool {
    forall|i: int| 0 <= i < s.len() ==> s[i] != c
}

/// `c` occurs in no text of the tree: no string, key or decimal number.
pub open spec fn free_of(v: VizValue, c: char) -> bool
    decreases v, 0nat,
{
    match v {
        VizValue::String(t) => no_char(t@, c),
        VizValue::Number(Number::Decimal(t)) => no_char(t@, c),
        VizValue::Array(items) => items_free_of(items@, items@.len(), c),
        VizValue::Object(entries) => entries_free_of(entries@, entries@.len(), c),
        _ => true,
    }
}

pub open spec fn items_free_of(items: Seq<VizValue>, k: nat, c: char) -> bool
    decreases items, k,
{
    if k == 0 || k > items.len() {
        true
    } else {
        items_free_of(items, (k - 1) as nat, c) && free_of(items[k - 1], c)
    }
}

pub open spec fn entries_free_of(entries: Seq<(String, VizValue)>, k: nat, c: char) -> bool
    decreases entries, k,
{
    if k == 0 || k > entries.len() {
        true
    } else {
        entries_free_of(entries, (k - 1) as nat, c) && no_char(entries[k - 1].0@, c)
            && free_of(entries[k - 1].1, c)
    }
}

pub open spec fn spans_free_of(spans: Seq<SpanM>, c: char) -> bool {
    forall|j: int| 0 <= j < spans.len() ==> no_char(#[trigger] spans[j].0, c)
}

pub open spec fn lines_free_of(lines: Seq<LineM>, c: char) -> bool {
    forall|i: int| 0 <= i < lines.len() ==> spans_free_of(#[trigger] lines[i].1, c)
}

proof fn lemma_nat_text_digits(n: nat)
    ensures
        no_char(nat_text(n), escape()),
        no_char(nat_text(n), '-'),
    decreases n,
{
    if n >= 10 {
        lemma_nat_text_digits(n / 10);
    }
    assert(digit(n as int % 10) != escape());
    assert(digit(n as int % 10) != '-');
    assert(digit(n as int) != escape() || n >= 10);
}

proof fn lemma_key_free(key: Option<Seq<char>>)
    requires
        key matches Some(k) ==> no_char(k, escape()),
    ensures
        spans_free_of(key_spans(key), escape()),
{
    reveal_strlit(": ");
}

proof fn lemma_comma_free(last: bool)
    ensures
        spans_free_of(comma(last), escape()),
{
    reveal_strlit(",");
}

proof fn lemma_lines_free(key: Option<Seq<char>>, v: VizValue, depth: nat, last: bool)
    requires
        free_of(v, escape()),
        key matches Some(k) ==> no_char(k, escape()),
    ensures
        lines_free_of(lines_of(key, v, depth, last), escape()),
    decreases v, 0nat,
{
    let c = escape();
    lemma_key_free(key);
    lemma_comma_free(last);
    reveal_strlit("[]");
    reveal_strlit("[");
    reveal_strlit("]");
    reveal_strlit("{}");
    reveal_strlit("{");
    reveal_strlit("}");
    let lines = lines_of(key, v, depth, last);
    match v {
        VizValue::Array(items) => {
            if items.len() > 0 {
                lemma_items_free(items@, items@.len(), depth + 1);
                let mid = items_lines(items@, items@.len(), depth + 1);
                assert forall|i: int| 0 <= i < lines.len() implies spans_free_of(#[trigger] lines[i].1, c) by {
                    if 1 <= i < lines.len() - 1 {
                        assert(lines[i] == mid[i - 1]);
                    }
                }
            }
        },
        VizValue::Object(entries) => {
            if entries.len() > 0 {
                lemma_entries_free(entries@, entries@.len(), depth + 1);
                let mid = entries_lines(entries@, entries@.len(), depth + 1);
                assert forall|i: int| 0 <= i < lines.len() implies spans_free_of(#[trigger] lines[i].1, c) by {
                    if 1 <= i < lines.len() - 1 {
                        assert(lines[i] == mid[i - 1]);
                    }
                }
            }
        },
        VizValue::Null => {
            reveal_strlit("null");
        },
        VizValue::Bool(_) => {
            reveal_strlit("true");
            reveal_strlit("false");
        },
        VizValue::Number(Number::Int(n)) => {
            if n < 0 {
                lemma_nat_text_digits((-n) as nat);
            } else {
                lemma_nat_text_digits(n as nat);
            }
            assert(no_char(int_text(n as int), c));
        },
        _ => {},
    }
}

proof fn lemma_items_free(items: Seq<VizValue>, k: nat, depth: nat)
    requires
        items_free_of(items, k, escape()),
    ensures
        lines_free_of(items_lines(items, k, depth), escape()),
    decreases items, k,
{
    if k > 0 && k <= items.len() {
        lemma_items_free(items, (k - 1) as nat, depth);
        lemma_lines_free(None, items[k - 1], depth, k == items.len());
    }
}

proof fn lemma_entries_free(entries: Seq<(String, VizValue)>, k: nat, depth: nat)
    requires
        entries_free_of(entries, k, escape()),
    ensures
        lines_free_of(entries_lines(entries, k, depth), escape()),
    decreases entries, k,
{
    if k > 0 && k <= entries.len() {
        lemma_entries_free(entries, (k - 1) as nat, depth);
        lemma_lines_free(Some(entries[k - 1].0@), entries[k - 1].1, depth, k == entries.len());
    }
}

proof fn lemma_spans_text_free(spans: Seq<SpanM>)
    requires
        spans_free_of(spans, escape()),
    ensures
        no_char(spans_text(spans), escape()),
    decreases spans.len(),
{
    if spans.len() > 0 {
        lemma_spans_text_free(spans.drop_last());
        assert(spans.last() == spans[spans.len() - 1]);
    }
}

proof fn lemma_document_free(lines: Seq<LineM>, width: nat)
    requires
        lines_free_of(lines, escape()),
    ensures
        no_char(document_text(lines, width), escape()),
    decreases lines.len(),
{
    if lines.len() > 0 {
        let rest = lines.drop_last();
        assert(lines_free_of(rest, escape())) by {
            assert forall|i: int| 0 <= i < rest.len() implies spans_free_of(#[trigger] rest[i].1, escape()) by {
                assert(rest[i] == lines[i]);
            }
        }
        lemma_document_free(rest, width);
        assert(lines.last() == lines[lines.len() - 1]);
        lemma_spans_text_free(lines.last().1);
    }
}

/// With colour off, the output holds no escape character, so no colour
/// sequence, unless the tree's own texts hold one.
pub proof fn lemma_plain_output_has_no_escape(v: VizValue, width: nat)
    requires
        free_of(v, escape()),
    ensures
        no_char(document_text(lines_of(None, v, 0, true), width), escape()),
{
    lemma_lines_free(None, v, 0, true);
    lemma_document_free(lines_of(None, v, 0, true), width);
}

} // verus!
