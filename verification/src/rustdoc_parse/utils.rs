//! Items of a markdown text and the text between them.
use std::ops::Range;
use vstd::prelude::*;
use vstd::string::StringSliceAdditionalSpecFns;
use vstd::utf8::{decode_utf8, encode_utf8, is_char_boundary, valid_utf8};

verus! {

/// A half-open range `start..end` of positions in the UTF-8 bytes of a text.
#[derive(Clone, Copy, Debug, PartialEq, Eq, PartialOrd, Ord, Structural)]
pub struct Span {
    pub start: usize,
    pub end: usize,
}

impl From<Range<usize>> for Span {
    fn from(range: Range<usize>) -> (r: Span) {
        Span { start: range.start, end: range.end }
    }
}

impl vstd::std_specs::convert::FromSpecImpl<Range<usize>> for Span {
    open spec fn obeys_from_spec() -> bool {
        true
    }

    open spec fn from_spec(range: Range<usize>) -> Span {
        Span { start: range.start, end: range.end }
    }
}

/// An item of a text, or a stretch of the text that belongs to no item.
#[derive(Debug, PartialEq, Eq)]
pub enum ItemOrOther<'a, T> {
    Item(T),
    Other(&'a str),
}

/// The model of an `ItemOrOther`.
pub enum Piece<T> {
    Item(T),
    Other(Seq<char>),
}

impl<'a, T> View for ItemOrOther<'a, T> {
    type V = Piece<T>;

    open spec fn view(&self) -> Piece<T> {
        match self {
            ItemOrOther::Item(item) => Piece::Item(*item),
            ItemOrOther::Other(text) => Piece::Other(text@),
        }
    }
}

/// The models of a list of pieces.
pub open spec fn pieces<'a, T>(list: Seq<ItemOrOther<'a, T>>) -> Seq<Piece<T>> {
    list.map_values(|p: ItemOrOther<'a, T>| p@)
}

/// The text that the bytes `from..to` of the UTF-8 form of `text` spell.
pub open spec fn byte_slice(text: Seq<char>, from: int, to: int) -> Seq<char> {
    decode_utf8(encode_utf8(text).subrange(from, to))
}

/// Whether `from..to` can be cut out of `text`: the range lies inside the UTF-8
/// form of the text and neither end splits a character.
pub open spec fn can_slice(text: Seq<char>, from: int, to: int) -> bool {
    &&& 0 <= from <= to <= encode_utf8(text).len()
    &&& is_char_boundary(encode_utf8(text), from)
    &&& is_char_boundary(encode_utf8(text), to)
}

/// Whether the items can be cut out of `text` one after another: each span can
/// be cut out, and none begins before the one before it ends.
pub open spec fn spans_fit<T>(text: Seq<char>, items: Seq<(Span, T)>) -> bool {
    &&& forall|k: int|
        0 <= k < items.len() ==> can_slice(
            text,
            (#[trigger] items[k]).0.start as int,
            items[k].0.end as int,
        )
    &&& forall|k: int|
        0 <= k < items.len() - 1 ==> (#[trigger] items[k]).0.end <= items[k + 1].0.start
}

/// The text between item `k - 1` and item `k`: from the start of the text for
/// the first item, to the end of the text after the last.
pub open spec fn gap<T>(text: Seq<char>, items: Seq<(Span, T)>, k: int) -> Seq<char> {
    byte_slice(
        text,
        if k <= 0 {
            0
        } else {
            items[k - 1].0.end as int
        },
        if k >= items.len() {
            encode_utf8(text).len() as int
        } else {
            items[k].0.start as int
        },
    )
}

/// `list` with the text `text` added, unless the text is empty.
pub open spec fn with_other<T>(list: Seq<Piece<T>>, text: Seq<char>) -> Seq<Piece<T>> {
    if text.len() > 0 {
        list.push(Piece::Other(text))
    } else {
        list
    }
}

/// The first `k` items, each after the text that precedes it.
pub open spec fn completed_upto<T>(text: Seq<char>, items: Seq<(Span, T)>, k: int) -> Seq<Piece<T>>
    decreases k,
{
    if k <= 0 {
        Seq::empty()
    } else {
        with_other(completed_upto(text, items, k - 1), gap(text, items, k - 1)).push(
            Piece::Item(items[k - 1].1),
        )
    }
}

/// The items in order, with the text before, between and after them; a stretch of
/// text that is empty is left out.
pub open spec fn completed<T>(text: Seq<char>, items: Seq<(Span, T)>) -> Seq<Piece<T>> {
    with_other(
        completed_upto(text, items, items.len() as int),
        gap(text, items, items.len() as int),
    )
}

/// A position inside the head of a text splits a character of the head exactly if
/// it splits one of the text.
pub proof fn lemma_boundary_in_head(bytes: Seq<u8>, from: int, to: int)
    requires
        valid_utf8(bytes),
        0 <= from <= to <= bytes.len(),
        is_char_boundary(bytes, to),
    ensures
        valid_utf8(bytes.subrange(0, to)),
        is_char_boundary(bytes.subrange(0, to), from) == is_char_boundary(bytes, from),
{
    let head = bytes.subrange(0, to);
    vstd::utf8::valid_utf8_split(bytes, to);
    if from < to {
        vstd::utf8::is_char_boundary_iff_not_is_continuation_byte(bytes, from);
        vstd::utf8::is_char_boundary_iff_not_is_continuation_byte(head, from);
        assert(head[from] == bytes[from]);
    } else {
        vstd::utf8::is_char_boundary_start_end_of_seq(head);
        assert(head.len() == to);
    }
}

/// The part of `text` that the bytes `from..to` spell.
pub fn slice<'a>(text: &'a str, from: usize, to: usize) -> (r: &'a str)
    requires
        can_slice(text@, from as int, to as int),
    ensures
        r@ == byte_slice(text@, from as int, to as int),
{
    let ghost bytes = text.spec_bytes();
    let (head, _) = text.split_at(to);
    proof {
        vstd::utf8::encode_utf8_valid_utf8(text@);
        lemma_boundary_in_head(bytes, from as int, to as int);
    }
    let (_, part) = head.split_at(from);
    proof {
        assert(part.spec_bytes() =~= bytes.subrange(from as int, to as int));
        vstd::utf8::encode_utf8_decode_utf8(part@);
    }
    part
}

/// Whether `from..to` can be cut out of `text`.
pub fn sliceable(text: &str, from: usize, to: usize) -> (r: bool)
    ensures
        r == can_slice(text@, from as int, to as int),
{
    from <= to && to <= text.as_bytes().len() && text.is_char_boundary(from)
        && text.is_char_boundary(to)
}

/// The items of a text, each with the span at which it stands.
pub struct MarkdownItemIterator<'a, T> {
    source: &'a str,
    iter: Vec<(Span, T)>,
}

impl<'a, T> MarkdownItemIterator<'a, T> {
    /// The text in which the items stand.
    pub closed spec fn text(&self) -> Seq<char> {
        self.source@
    }

    /// The items with their spans, in order.
    pub closed spec fn entries(&self) -> Seq<(Span, T)> {
        self.iter@
    }

    /// Whether the items can be cut out of the text one after another.
    pub open spec fn well_formed(&self) -> bool {
        spans_fit(self.text(), self.entries())
    }

    /// The items `iter` of the text `source`.
    pub fn new(source: &'a str, iter: Vec<(Span, T)>) -> (r: MarkdownItemIterator<'a, T>)
        ensures
            r.text() == source@,
            r.entries() == iter@,
    {
        MarkdownItemIterator { source, iter }
    }

    /// Whether the items can be cut out of the text one after another.
    pub fn is_well_formed(&self) -> (r: bool)
        ensures
            r == self.well_formed(),
    {
        let mut k: usize = 0;
        while k < self.iter.len()
            invariant
                k <= self.iter.len(),
                forall|j: int|
                    0 <= j < k ==> can_slice(
                        self.source@,
                        (#[trigger] self.iter@[j]).0.start as int,
                        self.iter@[j].0.end as int,
                    ),
                forall|j: int|
                    0 <= j < k - 1 ==> (#[trigger] self.iter@[j]).0.end <= self.iter@[j + 1].0.start,
            decreases self.iter.len() - k,
        {
            let span = self.iter[k].0;
            if !sliceable(self.source, span.start, span.end) {
                return false;
            }
            if k > 0 && self.iter[k - 1].0.end > span.start {
                assert(!(self.iter@[k - 1].0.end <= self.iter@[k - 1 + 1].0.start));
                return false;
            }
            k += 1;
        }
        true
    }

    /// The items, in order.
    pub fn items(self) -> (r: Vec<T>)
        ensures
            r@ == self.entries().map_values(|e: (Span, T)| e.1),
    {
        let mut out: Vec<T> = Vec::new();
        for entry in it: self.iter
            invariant
                out@ == it.seq().take(it.index()).map_values(|e: (Span, T)| e.1),
                it.seq() == self.entries(),
        {
            let ghost before = out@;
            out.push(entry.1);
            assert(out@ =~= it.seq().take(it.index() + 1).map_values(|e: (Span, T)| e.1));
        }
        assert(self.entries().take(self.entries().len() as int) == self.entries());
        out
    }

    /// The items in order, with the text before, between and after them; a stretch
    /// of text that is empty is left out.
    pub fn complete(self) -> (r: Vec<ItemOrOther<'a, T>>)
        requires
            self.well_formed(),
        ensures
            pieces(r@) == completed(self.text(), self.entries()),
    {
        let source = self.source;
        let ghost text = source@;
        let ghost all = self.iter@;
        let total: usize = source.as_bytes().len();
        proof {
            vstd::utf8::encode_utf8_valid_utf8(text);
            vstd::utf8::is_char_boundary_start_end_of_seq(encode_utf8(text));
        }
        let mut out: Vec<ItemOrOther<'a, T>> = Vec::new();
        let mut from: usize = 0;
        for entry in it: self.iter
            invariant
                it.seq() == all,
                text == source@,
                spans_fit(text, all),
                total == encode_utf8(text).len(),
                is_char_boundary(encode_utf8(text), 0),
                is_char_boundary(encode_utf8(text), total as int),
                pieces(out@) == completed_upto(text, all, it.index() as int),
                from == if it.index() == 0 {
                    0
                } else {
                    all[it.index() - 1].0.end
                },
        {
            let ghost k = it.index() as int;
            let ghost before = pieces(out@);
            let (span, item) = entry;
            assert(can_slice(text, all[k].0.start as int, all[k].0.end as int));
            assert(k > 0 ==> can_slice(text, all[k - 1].0.start as int, all[k - 1].0.end as int)
                && all[k - 1].0.end <= all[k - 1 + 1].0.start);
            let other = slice(source, from, span.start);
            assert(other@ == gap(text, all, k));
            if !other.is_empty() {
                out.push(ItemOrOther::Other(other));
            }
            assert(pieces(out@) =~= with_other(before, gap(text, all, k)));
            out.push(ItemOrOther::Item(item));
            from = span.end;
            assert(pieces(out@) =~= with_other(before, gap(text, all, k)).push(
                Piece::Item(all[k].1),
            ));
        }
        let ghost n = all.len() as int;
        let ghost before = pieces(out@);
        assert(n > 0 ==> can_slice(text, all[n - 1].0.start as int, all[n - 1].0.end as int));
        let tail = slice(source, from, total);
        assert(tail@ == gap(text, all, n));
        if !tail.is_empty() {
            out.push(ItemOrOther::Other(tail));
        }
        assert(pieces(out@) =~= with_other(before, gap(text, all, n)));
        out
    }

    /// The items with their spans, in order.
    pub fn items_with_spans(self) -> (r: Vec<(Span, T)>)
        ensures
            r@ == self.entries(),
    {
        self.iter
    }
}

} // verus!
