//! The changes that documentation goes through on its way into a markdown document.
//!
//! Documentation is written for rustdoc. Two of its habits do not suit a plain
//! markdown document: code samples hold lines that rustdoc hides, and their
//! blocks carry rustdoc's tags, or none, where a reader of markdown expects the
//! name of the language.
use vstd::prelude::*;
use crate::rustdoc_parse::Doc;
use crate::rustdoc_parse::utils::{
    completed, completed_upto, gap, pieces, with_other, ItemOrOther, Piece, Span,
};
use crate::text::{
    chars_of, find_char, find_char_from, join, join_strings, lemma_split_spans, push_all,
    push_range, push_str, run_end, run_end_from, same_text, skip_whitespace, skip_whitespace_from,
    split_at_char, split_on, split_spans, starts_with, string_from, sub_vec, texts, trim,
    trim_start, trimmed_end,
};
use self::utils::{
    blocks_view, events_view, markdown_events, parse_markdown, rust_blocks, rust_code_blocks,
    EventKind, EventModel,
};

pub mod intralinks;
pub mod utils;

verus! {

/// A change that is made to every Rust code block of a piece of documentation.
#[derive(Clone, Copy, Debug, PartialEq, Eq, Structural)]
pub enum BlockChange {
    /// The lines that rustdoc hides are taken out.
    RemoveComments,
    /// The tags of a fenced block are replaced by the one tag `rust`.
    MarkRust,
}

/// Whether rustdoc hides a line of a code sample: the line is a lone `#`, or
/// begins with `#` and a space, white space around it aside.
pub open spec fn is_hidden_line(line: Seq<char>) -> bool {
    "# "@.is_prefix_of(trim_start(line)) || trim(line) == "#"@
}

/// A line of a code sample as rustdoc shows it: a line that begins with `##`
/// loses the first `#`, any other line is shown as it is.
pub open spec fn shown_line(line: Seq<char>) -> Seq<char> {
    if "##"@.is_prefix_of(trim_start(line)) {
        line.remove(skip_whitespace(line, 0))
    } else {
        line
    }
}

/// A code block without the lines that rustdoc hides.
pub open spec fn shown_block(block: Seq<char>) -> Seq<char> {
    join(
        split_on(block, '\n').filter(|line: Seq<char>| !is_hidden_line(line)).map_values(
            |line: Seq<char>| shown_line(line),
        ),
        seq!['\n'],
    )
}

/// Whether a block begins with a code fence: three or more backticks, or three or
/// more tildes.
pub open spec fn begins_with_fence(block: Seq<char>) -> bool {
    block.len() > 0 && (block[0] == '`' || block[0] == '~') && run_end(block, block[0], 0) >= 3
}

/// A code block with the tag `rust`: what follows the opening fence on its line
/// is replaced by `rust`. A block that begins with no fence is left as it is.
pub open spec fn tagged_block(block: Seq<char>) -> Seq<char> {
    if begins_with_fence(block) {
        block.take(run_end(block, block[0], 0)) + "rust"@ + block.skip(find_char(block, '\n', 0))
    } else {
        block
    }
}

/// What a change makes of a code block.
pub open spec fn changed_block(change: BlockChange, block: Seq<char>) -> Seq<char> {
    match change {
        BlockChange::RemoveComments => shown_block(block),
        BlockChange::MarkRust => tagged_block(block),
    }
}

/// What a change makes of a piece of a text: a code block is changed, the text
/// around the blocks is not.
pub open spec fn changed_piece(change: BlockChange, piece: Piece<Seq<char>>) -> Seq<char> {
    match piece {
        Piece::Item(block) => changed_block(change, block),
        Piece::Other(text) => text,
    }
}

/// The pieces written one after another, each Rust code block changed.
pub open spec fn rebuilt(change: BlockChange, list: Seq<Piece<Seq<char>>>) -> Seq<char> {
    list.map_values(|p: Piece<Seq<char>>| changed_piece(change, p)).flatten()
}

/// `text` with each of the Rust code blocks that `events` names changed.
pub open spec fn with_changed_blocks(
    change: BlockChange,
    text: Seq<char>,
    events: Seq<(EventModel, Span)>,
) -> Seq<char> {
    rebuilt(change, completed(text, rust_blocks(text, events)))
}

/// The documentation without the lines that rustdoc hides in its Rust code blocks.
pub open spec fn without_comments(text: Seq<char>) -> Seq<char> {
    with_changed_blocks(BlockChange::RemoveComments, text, markdown_events(text))
}

/// The documentation with the tag `rust` on each of its fenced Rust code blocks.
pub open spec fn with_rust_tags(text: Seq<char>) -> Seq<char> {
    with_changed_blocks(BlockChange::MarkRust, text, markdown_events(text))
}

/// The model of a piece whose item is a text.
pub open spec fn piece_model<'a>(piece: Piece<&'a str>) -> Piece<Seq<char>> {
    match piece {
        Piece::Item(block) => Piece::Item(block@),
        Piece::Other(text) => Piece::Other(text),
    }
}

/// The pieces of a text are the same whether the items are taken as strings or as
/// their texts.
pub proof fn lemma_completed_texts<'a>(text: Seq<char>, items: Seq<(Span, &'a str)>, k: int)
    requires
        0 <= k <= items.len(),
    ensures
        completed_upto(text, items, k).map_values(|p: Piece<&'a str>| piece_model(p))
            == completed_upto(text, blocks_view(items), k),
        k == items.len() ==> completed(text, items).map_values(|p: Piece<&'a str>| piece_model(p))
            == completed(text, blocks_view(items)),
    decreases k,
{
    let model = |p: Piece<&'a str>| piece_model(p);
    if k > 0 {
        lemma_completed_texts(text, items, k - 1);
        let before = completed_upto(text, items, k - 1);
        let before_texts = completed_upto(text, blocks_view(items), k - 1);
        assert(gap(text, items, k - 1) == gap(text, blocks_view(items), k - 1));
        assert(with_other(before, gap(text, items, k - 1)).map_values(model) =~= with_other(
            before_texts,
            gap(text, items, k - 1),
        ));
        assert(completed_upto(text, items, k).map_values(model) =~= completed_upto(
            text,
            blocks_view(items),
            k,
        ));
    } else {
        assert(completed_upto(text, items, k).map_values(model) =~= completed_upto(
            text,
            blocks_view(items),
            k,
        ));
    }
    if k == items.len() {
        assert(gap(text, items, k) == gap(text, blocks_view(items), k));
        assert(completed(text, items).map_values(model) =~= completed(text, blocks_view(items)));
    }
}

/// Whether rustdoc hides the line `line`.
pub fn hides_line(line: &Vec<char>) -> (r: bool)
    ensures
        r == is_hidden_line(line@),
{
    let start = skip_whitespace_from(line, 0);
    let rest = sub_vec(line, start, line.len());
    if starts_with(&rest, &chars_of("# ")) {
        return true;
    }
    let end = trimmed_end(line, line.len());
    assert(line@.take(line@.len() as int) == line@);
    let head = sub_vec(line, 0, end);
    let from = skip_whitespace_from(&head, 0);
    let core = sub_vec(&head, from, head.len());
    same_text(&core, &chars_of("#"))
}

/// Adds to `out` the line `line` as rustdoc shows it.
pub fn show_line(line: &Vec<char>) -> (r: String)
    ensures
        r@ == shown_line(line@),
{
    let start = skip_whitespace_from(line, 0);
    let rest = sub_vec(line, start, line.len());
    let mut out: Vec<char> = Vec::new();
    if starts_with(&rest, &chars_of("##")) {
        assert(start < line.len()) by {
            reveal_strlit("##");
        }
        push_range(&mut out, line, 0, start);
        push_range(&mut out, line, start + 1, line.len());
        assert(out@ =~= line@.remove(start as int));
    } else {
        push_all(&mut out, line);
    }
    string_from(&out)
}

/// The code block `block` without the lines that rustdoc hides.
pub fn show_block(block: &str) -> (r: String)
    ensures
        r@ == shown_block(block@),
{
    let chars = chars_of(block);
    let spans = split_at_char(&chars, '\n');
    let ghost all = split_on(block@, '\n');
    let ghost shown = |line: Seq<char>| !is_hidden_line(line);
    let ghost show = |line: Seq<char>| shown_line(line);
    proof {
        assert(chars@.len() == chars.len());
        lemma_split_spans(chars@, '\n', 0);
    }
    let mut kept: Vec<String> = Vec::new();
    let mut k: usize = 0;
    while k < spans.len()
        invariant
            k <= spans.len(),
            chars@ == block@,
            all == split_on(block@, '\n'),
            spans@ == split_spans(chars@, '\n'),
            shown == |line: Seq<char>| !is_hidden_line(line),
            show == |line: Seq<char>| shown_line(line),
            forall|i: int| 0 <= i < spans@.len() ==> (#[trigger] spans@[i]).fits(chars@.len()),
            texts(kept@) == all.take(k as int).filter(shown).map_values(show),
        decreases spans.len() - k,
    {
        let span = spans[k];
        let line = sub_vec(&chars, span.start, span.end);
        let ghost before = texts(kept@);
        proof {
            assert(all[k as int] == line@);
            assert(all.take(k + 1) == all.take(k as int).push(all[k as int]));
            all.take(k as int).lemma_filter_push(all[k as int], shown);
        }
        if !hides_line(&line) {
            let text = show_line(&line);
            kept.push(text);
            assert(texts(kept@) =~= before.push(shown_line(line@)));
            assert(all.take(k as int).filter(shown).push(line@).map_values(show) =~= all.take(
                k as int,
            ).filter(shown).map_values(show).push(shown_line(line@)));
        }
        k += 1;
    }
    assert(all.take(spans@.len() as int) == all);
    proof {
        reveal_strlit("\n");
        assert("\n"@ =~= seq!['\n']);
    }
    join_strings(&kept, "\n")
}

/// The code block `block` with the tag `rust`.
pub fn tag_block(block: &str) -> (r: String)
    ensures
        r@ == tagged_block(block@),
{
    let chars = chars_of(block);
    if chars.len() == 0 || (chars[0] != '`' && chars[0] != '~') {
        return string_from(&chars);
    }
    let run = run_end_from(&chars, chars[0], 0);
    if run < 3 {
        return string_from(&chars);
    }
    let line_end = find_char_from(&chars, '\n', 0);
    let mut out: Vec<char> = Vec::new();
    push_range(&mut out, &chars, 0, run);
    push_str(&mut out, "rust");
    push_range(&mut out, &chars, line_end, chars.len());
    string_from(&out)
}

/// What `change` makes of the code block `block`.
pub fn change_block(change: BlockChange, block: &str) -> (r: String)
    ensures
        r@ == changed_block(change, block@),
{
    match change {
        BlockChange::RemoveComments => show_block(block),
        BlockChange::MarkRust => tag_block(block),
    }
}

/// `source` with each of the Rust code blocks that `events` names changed.
pub fn change_blocks(change: BlockChange, source: &str, events: &Vec<(EventKind, Span)>) -> (r:
    String)
    ensures
        r@ == with_changed_blocks(change, source@, events_view(events@)),
{
    let blocks = rust_code_blocks(source, events);
    let ghost items = blocks.entries();
    let list = blocks.complete();
    let ghost model = pieces(list@).map_values(|p: Piece<&str>| piece_model(p));
    let ghost changed = |p: Piece<Seq<char>>| changed_piece(change, p);
    proof {
        lemma_completed_texts(source@, items, items.len() as int);
    }
    let mut out: Vec<char> = Vec::new();
    let mut k: usize = 0;
    while k < list.len()
        invariant
            k <= list.len(),
            model == pieces(list@).map_values(|p: Piece<&str>| piece_model(p)),
            changed == |p: Piece<Seq<char>>| changed_piece(change, p),
            out@ == model.take(k as int).map_values(changed).flatten(),
        decreases list.len() - k,
    {
        let ghost before = model.take(k as int).map_values(changed);
        proof {
            assert(model.take(k + 1).map_values(changed) =~= before.push(
                changed_piece(change, model[k as int]),
            ));
            before.lemma_flatten_push(changed_piece(change, model[k as int]));
        }
        match &list[k] {
            ItemOrOther::Item(block) => {
                let text = change_block(change, block);
                push_str(&mut out, text.as_str());
            },
            ItemOrOther::Other(text) => {
                push_str(&mut out, text);
            },
        }
        k += 1;
    }
    assert(model.take(list@.len() as int) == model);
    string_from(&out)
}

/// Takes the lines that rustdoc hides out of the Rust code blocks.
pub struct DocTransformRustRemoveComments;

impl DocTransformRustRemoveComments {
    #[must_use]
    pub fn new() -> DocTransformRustRemoveComments {
        DocTransformRustRemoveComments
    }

    /// The documentation without the lines that rustdoc hides.
    pub fn transform(&self, doc: &Doc) -> (r: Doc)
        ensures
            r.content@ == without_comments(doc.content@),
    {
        let events = parse_markdown(doc.content.as_str());
        Doc { content: change_blocks(BlockChange::RemoveComments, doc.content.as_str(), &events) }
    }
}

/// Puts the tag `rust` on the fenced Rust code blocks.
pub struct DocTransformRustMarkdownTag;

impl DocTransformRustMarkdownTag {
    #[must_use]
    pub fn new() -> DocTransformRustMarkdownTag {
        DocTransformRustMarkdownTag
    }

    /// The documentation with the tag `rust` on its fenced Rust code blocks.
    pub fn transform(&self, doc: &Doc) -> (r: Doc)
        ensures
            r.content@ == with_rust_tags(doc.content@),
    {
        let events = parse_markdown(doc.content.as_str());
        Doc { content: change_blocks(BlockChange::MarkRust, doc.content.as_str(), &events) }
    }
}

} // verus!
