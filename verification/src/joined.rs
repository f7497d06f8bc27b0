//! The lines and the headings of a text that is made of parts.
//!
//! When a fence is replaced, what it generates comes to stand between the text
//! before the fence and the text after it. The laws of this module say what the
//! lines of such a text are, and that the headings of the part in the middle are
//! headings of the whole.
use vstd::prelude::*;
use crate::engine::{
    assembled, assembled_upto, execution_order, gap_text, gap_texts, lemma_execution_order,
    lemma_imports_run_first, lemma_slots_after, ranks, slots_after,
};
use crate::fence::toc::{
    entries, entry, heading_of, headings, headings_upto, is_heading_line,
    lemma_headings_stand_outside_fences, lemma_listed_headings, HeadingModel,
};
use crate::fence::{
    fence_mark, fences, fences_upto, in_fenced_section, is_fence_line, lemma_sections_upto,
    open_fence, outer_ranges, section_of, section_spans, sections_upto, FenceFault, FenceModel,
};
use crate::rustdoc_parse::Environment;
use crate::text::{
    content_end, find_char, is_whitespace, lemma_find_char, lemma_line_spans, line_end, line_spans,
    line_spans_from, lines, trim_end, trimmed_len, TextRange,
};

verus! {

/// The lines of `s` from position `i` on, as texts.
pub open spec fn lines_from(s: Seq<char>, i: int) -> Seq<Seq<char>> {
    line_spans_from(s, i).map_values(|r: TextRange| r.of(s))
}

/// The lines from a position on are the line that begins there and the lines
/// after its line feed.
pub proof fn lemma_lines_from(s: Seq<char>, i: int)
    requires
        0 <= i,
        s.len() <= usize::MAX,
    ensures
        lines(s) == lines_from(s, 0),
        i >= s.len() ==> lines_from(s, i) == Seq::<Seq<char>>::empty(),
        i < s.len() ==> lines_from(s, i) == seq![
            s.subrange(i, content_end(s, i, line_end(s, i))),
        ] + if line_end(s, i) < s.len() {
            lines_from(s, line_end(s, i) + 1)
        } else {
            Seq::<Seq<char>>::empty()
        },
{
    assert(lines(s) =~= lines_from(s, 0));
    if i >= s.len() {
        assert(lines_from(s, i) =~= Seq::<Seq<char>>::empty());
    } else {
        lemma_find_char(s, '\n', i);
        let e = line_end(s, i);
        let rest = if e < s.len() {
            lines_from(s, e + 1)
        } else {
            Seq::<Seq<char>>::empty()
        };
        assert(lines_from(s, i) =~= seq![s.subrange(i, content_end(s, i, e))] + rest);
    }
}

/// Looking for a character in the second of two texts.
pub proof fn lemma_find_in_second(a: Seq<char>, b: Seq<char>, c: char, j: int)
    requires
        0 <= j <= b.len(),
    ensures
        find_char(a + b, c, a.len() + j) == a.len() + find_char(b, c, j),
    decreases b.len() - j,
{
    if j < b.len() {
        assert((a + b)[a.len() + j] == b[j]);
        if b[j] != c {
            lemma_find_in_second(a, b, c, j + 1);
        }
    }
}

/// Looking for a character in the first of two texts: if it is found there, what
/// follows the text does not matter; if not, the search goes on in what follows.
pub proof fn lemma_find_in_first(a: Seq<char>, b: Seq<char>, c: char, i: int)
    requires
        0 <= i <= a.len(),
    ensures
        find_char(a, c, i) < a.len() ==> find_char(a + b, c, i) == find_char(a, c, i),
        find_char(a, c, i) >= a.len() ==> find_char(a + b, c, i) == a.len() + find_char(b, c, 0),
    decreases a.len() - i,
{
    if i < a.len() {
        assert((a + b)[i] == a[i]);
        if a[i] != c {
            lemma_find_in_first(a, b, c, i + 1);
        }
    } else {
        lemma_find_in_second(a, b, c, 0);
    }
}

/// The lines of the second of two texts are lines of the two texts together.
pub proof fn lemma_lines_of_second(a: Seq<char>, b: Seq<char>, j: int)
    requires
        0 <= j <= b.len(),
        (a + b).len() <= usize::MAX,
    ensures
        lines_from(a + b, a.len() + j) == lines_from(b, j),
    decreases b.len() - j,
{
    let s = a + b;
    lemma_lines_from(s, a.len() + j);
    lemma_lines_from(b, j);
    if j < b.len() {
        lemma_find_in_second(a, b, '\n', j);
        lemma_find_char(b, '\n', j);
        let e = line_end(b, j);
        assert(line_end(s, a.len() + j) == a.len() + e);
        if j < e {
            assert(s[a.len() + e - 1] == b[e - 1]);
        }
        assert(content_end(s, a.len() + j, a.len() + e) == a.len() + content_end(b, j, e));
        assert(s.subrange(a.len() + j, a.len() + content_end(b, j, e)) =~= b.subrange(
            j,
            content_end(b, j, e),
        ));
        if e < b.len() {
            lemma_lines_of_second(a, b, e + 1);
        }
    }
}

/// The lines of two texts of which the first is empty or ends in a line feed are
/// the lines of the first and then the lines of the second.
pub proof fn lemma_lines_of_both(a: Seq<char>, b: Seq<char>, i: int)
    requires
        0 <= i <= a.len(),
        a.len() == 0 || a.last() == '\n',
        (a + b).len() <= usize::MAX,
    ensures
        lines_from(a + b, i) == lines_from(a, i) + lines_from(b, 0),
    decreases a.len() - i,
{
    let s = a + b;
    lemma_lines_from(s, i);
    lemma_lines_from(a, i);
    if i < a.len() {
        lemma_find_char(a, '\n', i);
        lemma_find_in_first(a, b, '\n', i);
        let e = line_end(a, i);
        assert(e < a.len()) by {
            if e >= a.len() {
                assert(a[a.len() - 1] != '\n');
            }
        }
        assert(line_end(s, i) == e);
        if i < e {
            assert(s[e - 1] == a[e - 1]);
        }
        assert(content_end(s, i, e) == content_end(a, i, e));
        assert(s.subrange(i, content_end(a, i, e)) =~= a.subrange(i, content_end(a, i, e)));
        lemma_lines_of_both(a, b, e + 1);
        lemma_lines_from(a, e + 1);
        let first = seq![a.subrange(i, content_end(a, i, e))];
        assert(lines_from(s, i) == first + lines_from(s, e + 1));
        if e + 1 < a.len() {
            assert(lines_from(a, i) == first + lines_from(a, e + 1));
        } else {
            assert(lines_from(a, e + 1) == Seq::<Seq<char>>::empty());
            assert(lines_from(a, i) =~= first + lines_from(a, e + 1));
        }
        assert(first + (lines_from(a, e + 1) + lines_from(b, 0)) =~= (first + lines_from(a, e + 1))
            + lines_from(b, 0));
    } else {
        lemma_lines_of_second(a, b, 0);
        assert(lines_from(a, i) + lines_from(b, 0) =~= lines_from(b, 0));
    }
}

/// Whether `a` is `b`, or `b` without a carriage return at its end.
pub open spec fn same_line(a: Seq<char>, b: Seq<char>) -> bool {
    a == b || b == a.push('\r')
}

/// Whether a text is empty or begins with a line ending: a line feed, or a
/// carriage return and a line feed.
pub open spec fn begins_with_line_end(s: Seq<char>) -> bool {
    s.len() == 0 || s[0] == '\n' || (s.len() >= 2 && s[0] == '\r' && s[1] == '\n')
}

/// The lines of a text stay its lines when a text follows that begins with a line
/// ending, but that the last line may lose a carriage return at its end.
pub proof fn lemma_lines_of_first(a: Seq<char>, b: Seq<char>, i: int)
    requires
        0 <= i <= a.len(),
        begins_with_line_end(b),
        (a + b).len() <= usize::MAX,
    ensures
        lines_from(a, i).len() <= lines_from(a + b, i).len(),
        forall|k: int|
            0 <= k < lines_from(a, i).len() ==> same_line(
                #[trigger] lines_from(a + b, i)[k],
                lines_from(a, i)[k],
            ),
    decreases a.len() - i,
{
    let s = a + b;
    lemma_lines_from(s, i);
    lemma_lines_from(a, i);
    if i < a.len() {
        lemma_find_char(a, '\n', i);
        lemma_find_in_first(a, b, '\n', i);
        lemma_find_char(s, '\n', i);
        let e = line_end(a, i);
        let here = lines_from(a, i);
        let there = lines_from(s, i);
        if e < a.len() {
            assert(line_end(s, i) == e);
            if i < e {
                assert(s[e - 1] == a[e - 1]);
            }
            assert(content_end(s, i, e) == content_end(a, i, e));
            assert(s.subrange(i, content_end(a, i, e)) =~= a.subrange(i, content_end(a, i, e)));
            lemma_lines_of_first(a, b, e + 1);
            lemma_lines_from(a, e + 1);
            assert forall|k: int| 0 <= k < here.len() implies same_line(
                #[trigger] there[k],
                here[k],
            ) by {
                if k > 0 {
                    assert(e + 1 < a.len());
                    assert(here[k] == lines_from(a, e + 1)[k - 1]);
                    assert(there[k] == lines_from(s, e + 1)[k - 1]);
                }
            }
        } else {
            assert(here.len() == 1);
            assert(here[0] == a.subrange(i, a.len() as int));
            let f = line_end(s, i);
            if b.len() == 0 {
                assert(s =~= a);
            } else if b[0] == '\n' {
                assert(find_char(b, '\n', 0) == 0);
                assert(f == a.len());
                assert(s[f - 1] == a[a.len() - 1]);
                if a[a.len() - 1] == '\r' {
                    assert(content_end(s, i, f) == a.len() - 1);
                    assert(here[0] =~= s.subrange(i, a.len() - 1).push('\r'));
                } else {
                    assert(s.subrange(i, a.len() as int) =~= here[0]);
                }
            } else {
                assert(find_char(b, '\n', 0) == 1) by {
                    reveal_with_fuel(find_char, 3);
                }
                assert(f == a.len() + 1);
                assert(s[f - 1] == b[0]);
                assert(content_end(s, i, f) == a.len());
                assert(s.subrange(i, a.len() as int) =~= here[0]);
            }
        }
    }
}

/// The length of a text without its trailing white space is no more than its
/// length.
pub proof fn lemma_trimmed_len(s: Seq<char>)
    ensures
        0 <= trimmed_len(s) <= s.len(),
    decreases s.len(),
{
    if s.len() > 0 && is_whitespace(s.last()) {
        lemma_trimmed_len(s.drop_last());
    }
}

/// A carriage return at the end of a line changes neither whether the line is a
/// fence line nor the heading that it holds.
pub proof fn lemma_same_line(a: Seq<char>, b: Seq<char>)
    requires
        same_line(a, b),
    ensures
        is_fence_line(a) == is_fence_line(b),
        is_heading_line(a) == is_heading_line(b),
        heading_of(a) == heading_of(b),
{
    if a != b {
        assert(b.drop_last() =~= a);
        assert(is_whitespace('\r'));
        assert(trimmed_len(b) == trimmed_len(a));
        lemma_trimmed_len(a);
        assert(trim_end(b) =~= trim_end(a));
        if a.len() >= 3 {
            assert(a.subrange(0, 3) =~= b.subrange(0, 3));
        } else if b.len() >= 3 {
            assert(b.subrange(0, 3)[2] == '\r');
            assert(fence_mark()[2] == '`');
        }
    }
}

/// Whether a fenced section is open after the first `k` lines.
pub open spec fn fence_is_open(lines: Seq<Seq<char>>, k: int) -> bool {
    open_fence(lines, k) is Some
}

/// After lines that leave no fenced section open, the lines that follow open and
/// close sections as they do on their own, and so do lines that differ from them
/// by a carriage return at the end.
pub proof fn lemma_fences_of_later_lines(
    first: Seq<Seq<char>>,
    later: Seq<Seq<char>>,
    alone: Seq<Seq<char>>,
    k: int,
)
    requires
        !fence_is_open(first, first.len() as int),
        0 <= k <= alone.len() <= later.len(),
        forall|j: int| 0 <= j < alone.len() ==> same_line(#[trigger] later[j], alone[j]),
    ensures
        fence_is_open(first + later, first.len() + k) == fence_is_open(alone, k),
    decreases k,
{
    let all = first + later;
    if k > 0 {
        lemma_fences_of_later_lines(first, later, alone, k - 1);
        assert(all[first.len() + k - 1] == later[k - 1]);
        lemma_same_line(later[k - 1], alone[k - 1]);
    } else {
        lemma_fences_of_first_lines(first, later, first.len() as int);
    }
}

/// What follows a line does not change whether a fenced section is open after it.
pub proof fn lemma_fences_of_first_lines(first: Seq<Seq<char>>, later: Seq<Seq<char>>, k: int)
    requires
        0 <= k <= first.len(),
    ensures
        open_fence(first + later, k) == open_fence(first, k),
    decreases k,
{
    if k > 0 {
        lemma_fences_of_first_lines(first, later, k - 1);
        assert((first + later)[k - 1] == first[k - 1]);
    }
}

/// The headings of a part of a text are headings of the text, if the part begins
/// at the beginning of a line, ends where a line ends, and what stands before it
/// leaves no fenced section open.
pub proof fn lemma_headings_of_a_part(
    before: Seq<char>,
    part: Seq<char>,
    after: Seq<char>,
    heading: HeadingModel,
)
    requires
        before.len() == 0 || before.last() == '\n',
        begins_with_line_end(after),
        !fence_is_open(lines(before), lines(before).len() as int),
        (before + part + after).len() <= usize::MAX,
        headings(part).contains(heading),
    ensures
        headings(before + part + after).contains(heading),
{
    let whole = before + part + after;
    let rest = part + after;
    assert(whole =~= before + rest);
    lemma_lines_from(whole, 0);
    lemma_lines_from(before, 0);
    lemma_lines_from(part, 0);
    lemma_lines_from(rest, 0);
    lemma_lines_of_both(before, rest, 0);
    lemma_lines_of_first(part, after, 0);
    let first = lines(before);
    let later = lines(rest);
    let alone = lines(part);
    assert(lines(whole) == first + later);
    lemma_headings_stand_outside_fences(alone, alone.len() as int);
    let k = choose|k: int|
        0 <= k < alone.len() && !in_fenced_section(alone, k) && is_heading_line(alone[k])
            && heading == heading_of(#[trigger] alone[k]);
    lemma_fences_of_later_lines(first, later, alone, k);
    lemma_same_line(later[k], alone[k]);
    let at = first.len() + k;
    assert(lines(whole)[at] == later[k]);
    assert(!in_fenced_section(lines(whole), at));
    lemma_headings_stand_outside_fences(lines(whole), lines(whole).len() as int);
    assert(headings_upto(lines(whole), lines(whole).len() as int).contains(
        heading_of(lines(whole)[at]),
    ));
}

/// Whether the range `start..end` of `s` begins at the beginning of a line and
/// ends where a line ends.
pub open spec fn stands_on_lines(s: Seq<char>, range: TextRange) -> bool {
    &&& range.fits(s.len())
    &&& (range.start == 0 || s[range.start - 1] == '\n')
    &&& begins_with_line_end(s.subrange(range.end as int, s.len() as int))
}

/// Every line begins at the beginning of a line and ends where a line ends.
pub proof fn lemma_lines_stand_on_lines(s: Seq<char>, i: int)
    requires
        0 <= i <= s.len(),
        i == 0 || s[i - 1] == '\n',
        s.len() <= usize::MAX,
    ensures
        forall|k: int|
            0 <= k < line_spans_from(s, i).len() ==> stands_on_lines(
                s,
                #[trigger] line_spans_from(s, i)[k],
            ),
    decreases s.len() - i,
{
    if i < s.len() {
        lemma_find_char(s, '\n', i);
        let e = line_end(s, i);
        let all = line_spans_from(s, i);
        let end = content_end(s, i, e);
        let tail = s.subrange(end, s.len() as int);
        if e < s.len() {
            assert(tail[0] == s[end]);
            if end < e {
                assert(tail[1] == s[end + 1]);
            }
            lemma_lines_stand_on_lines(s, e + 1);
        }
        assert(stands_on_lines(s, all[0]));
        assert forall|k: int| 0 <= k < all.len() implies stands_on_lines(s, #[trigger] all[k]) by {
            if k > 0 {
                assert(all[k] == line_spans_from(s, e + 1)[k - 1]);
            }
        }
    }
}

/// The fences of a document begin at the beginning of a line and end where a line
/// ends, and each ends before the next begins.
pub proof fn lemma_fences_stand_on_lines(doc: Seq<char>, k: int, list: Seq<FenceModel>)
    requires
        0 <= k <= section_spans(doc).len(),
        doc.len() <= usize::MAX,
        fences_upto(doc, section_spans(doc), k) == Ok::<_, FenceFault>(list),
    ensures
        forall|i: int| 0 <= i < list.len() ==> stands_on_lines(doc, (#[trigger] list[i]).outer()),
        forall|i: int|
            0 <= i < list.len() ==> exists|j: int|
                0 <= j < k && (#[trigger] list[i]).outer() == (#[trigger] section_spans(
                    doc,
                )[j]).outer(),
        forall|a: int, b: int|
            0 <= a < b < list.len() ==> (#[trigger] list[a]).outer().end < (
            #[trigger] list[b]).outer().start,
    decreases k,
{
    let sections = section_spans(doc);
    let ls = lines(doc);
    let pairs = sections_upto(ls, ls.len() as int);
    if k > 0 {
        let before = fences_upto(doc, sections, k - 1)->Ok_0;
        lemma_fences_stand_on_lines(doc, k - 1, before);
        lemma_sections_upto(ls, ls.len() as int);
        lemma_line_spans(doc, 0);
        lemma_lines_stand_on_lines(doc, 0);
        assert(ls.len() == line_spans(doc).len());
        assert(sections[k - 1] == section_of(doc, pairs[k - 1]));
        assert(stands_on_lines(doc, line_spans(doc)[pairs[k - 1].0]));
        assert(stands_on_lines(doc, line_spans(doc)[pairs[k - 1].1]));
        assert(line_spans(doc)[pairs[k - 1].0].end < line_spans(doc)[pairs[k - 1].1].start);
        assert(stands_on_lines(doc, sections[k - 1].outer()));
        assert forall|i: int| 0 <= i < list.len() implies stands_on_lines(
            doc,
            (#[trigger] list[i]).outer(),
        ) by {
            if i < before.len() {
                assert(list[i] == before[i]);
            } else {
                assert(list[i].outer() == sections[k - 1].outer());
            }
        }
        assert forall|i: int| 0 <= i < list.len() implies exists|j: int|
            0 <= j < k && (#[trigger] list[i]).outer() == (#[trigger] sections[j]).outer() by {
            if i < before.len() {
                assert(list[i] == before[i]);
                let j = choose|j: int|
                    0 <= j < k - 1 && before[i].outer() == (#[trigger] sections[j]).outer();
                assert(sections[j].outer() == list[i].outer());
            } else {
                assert(list[i].outer() == sections[k - 1].outer());
            }
        }
        assert forall|a: int, b: int| 0 <= a < b < list.len() implies (
        #[trigger] list[a]).outer().end < (#[trigger] list[b]).outer().start by {
            assert(list[a] == before[a]);
            if b < before.len() {
                assert(list[b] == before[b]);
            } else {
                let j = choose|j: int|
                    0 <= j < k - 1 && before[a].outer() == (#[trigger] sections[j]).outer();
                assert(sections[j] == section_of(doc, pairs[j]));
                assert(pairs[j].1 < pairs[k - 1].0);
                assert(line_spans(doc)[pairs[j].1].end < line_spans(doc)[pairs[k - 1].0].start);
            }
        }
    }
}

/// The part of a document from the text before fence `k` on.
pub open spec fn assembled_from(gaps: Seq<Seq<char>>, slots: Seq<Seq<char>>, k: int) -> Seq<char>
    decreases slots.len() - k,
{
    if k >= slots.len() {
        gaps[slots.len() as int]
    } else {
        gaps[k] + slots[k] + assembled_from(gaps, slots, k + 1)
    }
}

/// A document is what stands before a fence and what stands from there on.
pub proof fn lemma_assembled_parts(gaps: Seq<Seq<char>>, slots: Seq<Seq<char>>, k: int)
    requires
        0 <= k <= slots.len(),
    ensures
        assembled(gaps, slots) == assembled_upto(gaps, slots, k) + assembled_from(gaps, slots, k),
    decreases slots.len() - k,
{
    if k < slots.len() {
        lemma_assembled_parts(gaps, slots, k + 1);
        assert(assembled_upto(gaps, slots, k + 1) + assembled_from(gaps, slots, k + 1)
            =~= assembled_upto(gaps, slots, k) + assembled_from(gaps, slots, k));
    }
}

/// The document at the moment at which the first `j` fences of the order have
/// run, if all of them ran without a fault.
pub open spec fn document_after(
    doc: Seq<char>,
    list: Seq<FenceModel>,
    environment: Environment,
    j: int,
) -> Seq<char> {
    assembled(
        gap_texts(doc, outer_ranges(list)),
        slots_after(doc, list, environment, execution_order(ranks(list)), j)->Ok_0,
    )
}

/// What stands before fence `i` in the document at that moment.
pub open spec fn text_before(
    doc: Seq<char>,
    list: Seq<FenceModel>,
    environment: Environment,
    j: int,
    i: int,
) -> Seq<char> {
    assembled_upto(
        gap_texts(doc, outer_ranges(list)),
        slots_after(doc, list, environment, execution_order(ranks(list)), j)->Ok_0,
        i,
    ) + gap_texts(doc, outer_ranges(list))[i]
}

/// What stands before a fence in a document is empty or ends in a line feed,
/// whatever the slots of the fences before it hold.
pub proof fn lemma_text_before_a_fence(
    doc: Seq<char>,
    list: Seq<FenceModel>,
    slots: Seq<Seq<char>>,
    i: int,
)
    requires
        doc.len() <= usize::MAX,
        fences(doc) == Ok::<_, FenceFault>(list),
        slots.len() == list.len(),
        0 <= i < list.len(),
    ensures
        ({
            let gaps = gap_texts(doc, outer_ranges(list));
            let before = assembled_upto(gaps, slots, i) + gaps[i];
            before.len() == 0 || before.last() == '\n'
        }),
{
    let ranges = outer_ranges(list);
    let gaps = gap_texts(doc, ranges);
    let before = assembled_upto(gaps, slots, i) + gaps[i];
    let gap = gaps[i];
    lemma_fences_stand_on_lines(doc, section_spans(doc).len() as int, list);
    assert(ranges[i] == list[i].outer());
    assert(stands_on_lines(doc, list[i].outer()));
    assert(gap == gap_text(doc, ranges, i));
    if i > 0 {
        assert(ranges[i - 1] == list[i - 1].outer());
        assert(list[i - 1].outer().end < list[i].outer().start);
    }
    if gap.len() > 0 {
        assert(gap.last() == doc[ranges[i].start - 1]);
        assert(before.last() == gap.last());
    } else {
        assert(i == 0);
        assert(before =~= Seq::<char>::empty());
    }
}

/// What stands after a fence in a document is empty or begins with a line
/// ending, whatever the slots of the fences after it hold.
pub proof fn lemma_text_after_a_fence(
    doc: Seq<char>,
    list: Seq<FenceModel>,
    slots: Seq<Seq<char>>,
    i: int,
)
    requires
        doc.len() <= usize::MAX,
        fences(doc) == Ok::<_, FenceFault>(list),
        slots.len() == list.len(),
        0 <= i < list.len(),
    ensures
        begins_with_line_end(assembled_from(gap_texts(doc, outer_ranges(list)), slots, i + 1)),
{
    let ranges = outer_ranges(list);
    let gaps = gap_texts(doc, ranges);
    let after = assembled_from(gaps, slots, i + 1);
    let gap = gaps[i + 1];
    let tail = doc.subrange(ranges[i].end as int, doc.len() as int);
    lemma_fences_stand_on_lines(doc, section_spans(doc).len() as int, list);
    assert(ranges[i] == list[i].outer());
    assert(stands_on_lines(doc, list[i].outer()));
    assert(gap == gap_text(doc, ranges, i + 1));
    if i + 1 < list.len() {
        assert(ranges[i + 1] == list[i + 1].outer());
        assert(stands_on_lines(doc, list[i + 1].outer()));
        assert(list[i].outer().end < list[i + 1].outer().start);
        assert(gap.len() > 0);
        assert(gap[0] == tail[0]);
        assert(doc[ranges[i + 1].start - 1] == '\n');
        if tail[0] != '\n' {
            assert(tail[0] == doc[ranges[i].end as int]);
            assert(gap.len() >= 2);
            assert(gap[1] == tail[1]);
        }
        assert(after =~= gap + (slots[i + 1] + assembled_from(gaps, slots, i + 2)));
        assert(after[0] == gap[0]);
        if tail[0] != '\n' {
            assert(after[1] == gap[1]);
        }
    } else {
        assert(after == gap);
        assert(gap =~= tail);
    }
}

/// The headings of what stands in the slot of a fence are headings of the
/// document, where what stands before the slot leaves no fenced section open.
pub proof fn lemma_headings_of_a_slot(
    doc: Seq<char>,
    list: Seq<FenceModel>,
    slots: Seq<Seq<char>>,
    i: int,
    heading: HeadingModel,
)
    requires
        doc.len() <= usize::MAX,
        fences(doc) == Ok::<_, FenceFault>(list),
        slots.len() == list.len(),
        0 <= i < list.len(),
        assembled(gap_texts(doc, outer_ranges(list)), slots).len() <= usize::MAX,
        ({
            let gaps = gap_texts(doc, outer_ranges(list));
            let before = assembled_upto(gaps, slots, i) + gaps[i];
            !fence_is_open(lines(before), lines(before).len() as int)
        }),
        headings(slots[i]).contains(heading),
    ensures
        headings(assembled(gap_texts(doc, outer_ranges(list)), slots)).contains(heading),
{
    let gaps = gap_texts(doc, outer_ranges(list));
    let before = assembled_upto(gaps, slots, i) + gaps[i];
    let after = assembled_from(gaps, slots, i + 1);
    lemma_assembled_parts(gaps, slots, i + 1);
    assert(assembled(gaps, slots) =~= before + slots[i] + after);
    lemma_text_before_a_fence(doc, list, slots, i);
    lemma_text_after_a_fence(doc, list, slots, i);
    lemma_headings_of_a_part(before, slots[i], after, heading);
}

/// A table of contents lists the headings of the documentation that the document
/// imports: when the table runs, the import has run, and the headings of what it
/// imported are headings of the document, so that the table has an entry for each
/// that is of a depth which the table lists. This holds where what stands before
/// the imported text leaves no fenced section open.
pub proof fn lemma_imported_headings_are_listed(
    doc: Seq<char>,
    list: Seq<FenceModel>,
    environment: Environment,
    j: int,
    i: int,
    heading: HeadingModel,
)
    requires
        doc.len() <= usize::MAX,
        fences(doc) == Ok::<_, FenceFault>(list),
        0 <= j < list.len(),
        0 <= i < list.len(),
        list[execution_order(ranks(list))[j]] is Toc,
        list[i] is RustDoc,
        slots_after(doc, list, environment, execution_order(ranks(list)), j) is Ok,
        document_after(doc, list, environment, j).len() <= usize::MAX,
        !fence_is_open(
            lines(text_before(doc, list, environment, j, i)),
            lines(text_before(doc, list, environment, j, i)).len() as int,
        ),
        list[i].replacement(doc, environment) matches Ok(imported) && headings(imported).contains(
            heading,
        ),
    ensures
        headings(document_after(doc, list, environment, j)).contains(heading),
        list[execution_order(ranks(list))[j]] matches FenceModel::Toc { layout, .. } && (
        layout.lists(heading.depth) ==> entries(
            headings(document_after(doc, list, environment, j)),
            layout,
        ).contains(entry(heading, layout))),
{
    let order = execution_order(ranks(list));
    let slots = slots_after(doc, list, environment, order, j)->Ok_0;
    let whole = document_after(doc, list, environment, j);
    lemma_imports_run_first(doc, list, environment, j, i);
    lemma_execution_order(ranks(list), list.len() as int);
    lemma_slots_after(doc, list, environment, order, j);
    lemma_headings_of_a_slot(doc, list, slots, i, heading);
    match list[order[j]] {
        FenceModel::Toc { layout, .. } => {
            lemma_listed_headings(headings(whole), layout);
            if layout.lists(heading.depth) {
                let p = choose|p: int| 0 <= p < headings(whole).len() && headings(whole)[p] == heading;
                assert(entries(headings(whole), layout).contains(entry(headings(whole)[p], layout)));
            }
        },
        FenceModel::RustDoc { .. } => {},
    }
}

} // verus!
