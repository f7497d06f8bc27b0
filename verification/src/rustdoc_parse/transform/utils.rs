//! The code blocks of a markdown text that hold Rust code.
use pulldown_cmark::{CodeBlockKind, Event, Options, Parser, Tag};
use vstd::prelude::*;
use crate::rustdoc_parse::utils::{
    byte_slice, can_slice, slice, sliceable, spans_fit, MarkdownItemIterator, Span,
};
use crate::text::{
    chars_of, lemma_split_spans, same_text, split_at_char, split_on, split_spans, starts_with,
    sub_vec,
};

verus! {

/// Whether one tag of a code block leaves the block a Rust code block: the tag
/// is empty, is one of the tags that rustdoc knows, or begins with `ignore-` or
/// with `edition`.
pub open spec fn is_rust_tag(tag: Seq<char>) -> bool {
    ||| tag.len() == 0
    ||| tag == "should_panic"@
    ||| tag == "no_run"@
    ||| tag == "ignore"@
    ||| tag == "allow_fail"@
    ||| tag == "rust"@
    ||| tag == "test_harness"@
    ||| tag == "compile_fail"@
    ||| "ignore-"@.is_prefix_of(tag)
    ||| "edition"@.is_prefix_of(tag)
}

/// Whether the tags of a code block make it a Rust code block: each of the tags,
/// which commas separate, is a Rust tag.
pub open spec fn is_rust_tags(tags: Seq<char>) -> bool {
    forall|k: int| 0 <= k < split_on(tags, ',').len() ==> is_rust_tag(#[trigger] split_on(tags, ',')[k])
}

/// Whether `tag` is a Rust tag.
pub fn is_rust_tag_text(tag: &Vec<char>) -> (r: bool)
    ensures
        r == is_rust_tag(tag@),
{
    tag.len() == 0 || same_text(tag, &chars_of("should_panic")) || same_text(
        tag,
        &chars_of("no_run"),
    ) || same_text(tag, &chars_of("ignore")) || same_text(tag, &chars_of("allow_fail"))
        || same_text(tag, &chars_of("rust")) || same_text(tag, &chars_of("test_harness"))
        || same_text(tag, &chars_of("compile_fail")) || starts_with(tag, &chars_of("ignore-"))
        || starts_with(tag, &chars_of("edition"))
}

/// Whether the tags of a code block make it a Rust code block.
pub fn is_rust_code_block(tags: &str) -> (r: bool)
    ensures
        r == is_rust_tags(tags@),
{
    let chars = chars_of(tags);
    let spans = split_at_char(&chars, ',');
    proof {
        assert(chars@.len() == chars.len());
        lemma_split_spans(chars@, ',', 0);
    }
    let mut k: usize = 0;
    while k < spans.len()
        invariant
            k <= spans.len(),
            chars@ == tags@,
            spans@ == split_spans(chars@, ','),
            forall|i: int| 0 <= i < spans@.len() ==> (#[trigger] spans@[i]).fits(chars@.len()),
            forall|i: int| 0 <= i < k ==> is_rust_tag(#[trigger] split_on(chars@, ',')[i]),
        decreases spans.len() - k,
    {
        let span = spans[k];
        let tag = sub_vec(&chars, span.start, span.end);
        assert(split_on(chars@, ',')[k as int] == tag@);
        if !is_rust_tag_text(&tag) {
            return false;
        }
        k += 1;
    }
    true
}

/// What an event of the markdown parser says about code blocks.
#[derive(Debug)]
pub enum EventKind {
    /// An indented code block begins.
    IndentedCode,
    /// A fenced code block with these tags begins.
    FencedCode(String),
    /// Anything else.
    Other,
}

/// The model of an `EventKind`.
pub enum EventModel {
    IndentedCode,
    FencedCode(Seq<char>),
    Other,
}

impl View for EventKind {
    type V = EventModel;

    open spec fn view(&self) -> EventModel {
        match self {
            EventKind::IndentedCode => EventModel::IndentedCode,
            EventKind::FencedCode(tags) => EventModel::FencedCode(tags@),
            EventKind::Other => EventModel::Other,
        }
    }
}

/// The models of a list of events.
pub open spec fn events_view(events: Seq<(EventKind, Span)>) -> Seq<(EventModel, Span)> {
    events.map_values(|e: (EventKind, Span)| (e.0@, e.1))
}

/// The events that `pulldown_cmark` reports for a text when all of its options
/// are on, each with the span of the text to which it belongs.
pub uninterp spec fn markdown_events(source: Seq<char>) -> Seq<(EventModel, Span)>;

/// `pulldown_cmark::Parser::new_ext` with every option, read to its end through
/// `into_offset_iter`. Of each event this keeps whether it begins an indented code
/// block, begins a fenced one and with which tags, or is anything else, and the
/// span that the parser gave with it.
#[verifier::external_body]
pub(crate) fn parse_markdown(source: &str) -> (r: Vec<(EventKind, Span)>)
    ensures
        events_view(r@) == markdown_events(source@),
{
    let kind = |event| match event {
        Event::Start(Tag::CodeBlock(CodeBlockKind::Indented)) => EventKind::IndentedCode,
        Event::Start(Tag::CodeBlock(CodeBlockKind::Fenced(tags))) => {
            EventKind::FencedCode(tags.to_string())
        },
        _ => EventKind::Other,
    };
    Parser::new_ext(source, Options::all()).into_offset_iter().map(
        |(event, range)| (kind(event), Span { start: range.start, end: range.end }),
    ).collect()
}

/// Whether an event begins a Rust code block: an indented code block, or a
/// fenced one whose tags are Rust tags.
pub open spec fn begins_rust_block(kind: EventModel) -> bool {
    match kind {
        EventModel::IndentedCode => true,
        EventModel::FencedCode(tags) => is_rust_tags(tags),
        EventModel::Other => false,
    }
}

/// Where the last of the blocks ends, or 0 if there is none.
pub open spec fn last_end(blocks: Seq<(Span, Seq<char>)>) -> int {
    if blocks.len() == 0 {
        0
    } else {
        blocks.last().0.end as int
    }
}

/// The Rust code blocks among the first `k` events, each with its text. An event
/// counts if it begins a Rust code block whose span can be cut out of the text
/// and does not begin before the block before it ends.
pub open spec fn rust_blocks_upto(text: Seq<char>, events: Seq<(EventModel, Span)>, k: int) -> Seq<
    (Span, Seq<char>),
>
    decreases k,
{
    if k <= 0 {
        Seq::empty()
    } else {
        let before = rust_blocks_upto(text, events, k - 1);
        let (kind, span) = events[k - 1];
        if begins_rust_block(kind) && can_slice(text, span.start as int, span.end as int)
            && last_end(before) <= span.start {
            before.push((span, byte_slice(text, span.start as int, span.end as int)))
        } else {
            before
        }
    }
}

/// The Rust code blocks that the events name, in order, each with its text.
pub open spec fn rust_blocks(text: Seq<char>, events: Seq<(EventModel, Span)>) -> Seq<
    (Span, Seq<char>),
> {
    rust_blocks_upto(text, events, events.len() as int)
}

/// The model of the items of a text: each span with the text of its item.
pub open spec fn blocks_view<'a>(items: Seq<(Span, &'a str)>) -> Seq<(Span, Seq<char>)> {
    items.map_values(|e: (Span, &'a str)| (e.0, e.1@))
}

/// The Rust code blocks of `source` that `events` names.
pub fn rust_code_blocks<'a>(source: &'a str, events: &Vec<(EventKind, Span)>) -> (r:
    MarkdownItemIterator<'a, &'a str>)
    ensures
        r.text() == source@,
        r.well_formed(),
        blocks_view(r.entries()) == rust_blocks(source@, events_view(events@)),
{
    let ghost text = source@;
    let ghost model = events_view(events@);
    let mut items: Vec<(Span, &'a str)> = Vec::new();
    let mut end: usize = 0;
    let mut k: usize = 0;
    while k < events.len()
        invariant
            k <= events.len(),
            text == source@,
            model == events_view(events@),
            blocks_view(items@) == rust_blocks_upto(text, model, k as int),
            end == last_end(blocks_view(items@)),
            spans_fit(text, items@),
        decreases events.len() - k,
    {
        let ghost before = items@;
        let span = events[k].1;
        assert(model[k as int] == (events@[k as int].0@, events@[k as int].1));
        let begins = match &events[k].0 {
            EventKind::IndentedCode => true,
            EventKind::FencedCode(tags) => is_rust_code_block(tags.as_str()),
            EventKind::Other => false,
        };
        if begins && sliceable(source, span.start, span.end) && end <= span.start {
            let block = slice(source, span.start, span.end);
            items.push((span, block));
            end = span.end;
            assert(blocks_view(items@) =~= blocks_view(before).push((span, block@)));
            assert forall|j: int| 0 <= j < items@.len() - 1 implies (#[trigger] items@[j]).0.end
                <= items@[j + 1].0.start by {
                if j < before.len() - 1 {
                    assert(items@[j] == before[j]);
                    assert(items@[j + 1] == before[j + 1]);
                } else {
                    assert(items@[j] == before[j]);
                    assert(blocks_view(before).last() == (before[j].0, before[j].1@));
                }
            }
            assert forall|j: int| 0 <= j < items@.len() implies can_slice(
                text,
                (#[trigger] items@[j]).0.start as int,
                items@[j].0.end as int,
            ) by {
                if j < before.len() {
                    assert(items@[j] == before[j]);
                }
            }
        }
        k += 1;
    }
    MarkdownItemIterator::new(source, items)
}

/// The Rust code blocks of a markdown text: the indented code blocks and the
/// fenced ones whose tags are Rust tags, in order, each with its text.
pub fn rust_code_block_iterator<'a>(source: &'a str) -> (r: MarkdownItemIterator<'a, &'a str>)
    ensures
        r.text() == source@,
        r.well_formed(),
        blocks_view(r.entries()) == rust_blocks(source@, markdown_events(source@)),
{
    let events = parse_markdown(source);
    rust_code_blocks(source, &events)
}

} // verus!
