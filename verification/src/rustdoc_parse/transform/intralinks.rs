//! Links from documentation to items of its crate.
//!
//! Documentation links to an item by its path: `[text](crate::module::Item)`. A
//! markdown document needs the address of the page that documents the item.
//! Finding that address takes the sources of the whole crate, so it is the
//! caller's work: the documentation is searched for such links, the caller
//! resolves them, and each link that was resolved gets its address. A link that
//! was not resolved stays as it is, and a warning tells of it.
use vstd::prelude::*;
use crate::config::text_eq;
use crate::rustdoc_parse::Doc;
use crate::rustdoc_parse::utils::{completed, pieces, ItemOrOther, Piece, Span};
use crate::text::{
    chars_of, is_whitespace, is_whitespace_char, lemma_split_spans, push_range, push_str, same_text,
    split_at_char, split_on, split_spans, starts_with, string_from, string_of, sub_vec, texts,
};
use super::utils::{
    events_view, markdown_events, parse_markdown, rust_blocks, rust_code_blocks, EventKind,
    EventModel,
};
use super::{lemma_completed_texts, piece_model};

verus! {

/// A link that the caller resolved.
#[derive(Debug, PartialEq, Eq)]
pub struct ResolvedLink {
    /// The path as the documentation writes it, such as `crate::module::Item`.
    pub reference: String,
    /// The address of the page that documents the item.
    pub target: String,
}

/// The models of a list of resolved links: each path with its address.
pub open spec fn links_view(links: Seq<ResolvedLink>) -> Seq<(Seq<char>, Seq<char>)> {
    links.map_values(|l: ResolvedLink| (l.reference@, l.target@))
}

/// Whether the destination of a link is a path into the crate: it is `crate` or
/// begins with `crate::`.
pub open spec fn is_intralink(destination: Seq<char>) -> bool {
    destination == "crate"@ || "crate::"@.is_prefix_of(destination)
}

/// Where the destination that begins at `i` ends: at the first closing
/// parenthesis or white space at or after `i`, or at the end of the text.
pub open spec fn destination_end(s: Seq<char>, i: int) -> int
    decreases s.len() - i,
{
    if 0 <= i < s.len() && s[i] != ')' && !is_whitespace(s[i]) {
        destination_end(s, i + 1)
    } else {
        i
    }
}

/// The end of the link into the crate that begins at `i`, if one begins there:
/// `](` stands before `i`, and the destination that follows is a path into the
/// crate and ends before the end of the text.
pub open spec fn intralink_at(s: Seq<char>, i: int) -> Option<int> {
    let end = destination_end(s, i);
    if 2 <= i < end < s.len() && s[i - 2] == ']' && s[i - 1] == '(' && is_intralink(
        s.subrange(i, end),
    ) {
        Some(end)
    } else {
        None
    }
}

/// The address that the caller found for a path: that of the first link from
/// position `i` on that has the path.
pub open spec fn target_from(links: Seq<(Seq<char>, Seq<char>)>, reference: Seq<char>, i: int) -> Option<
    Seq<char>,
>
    decreases links.len() - i,
{
    if i < 0 || i >= links.len() {
        None
    } else if links[i].0 == reference {
        Some(links[i].1)
    } else {
        target_from(links, reference, i + 1)
    }
}

/// The address that the caller found for a path.
pub open spec fn target_of(links: Seq<(Seq<char>, Seq<char>)>, reference: Seq<char>) -> Option<
    Seq<char>,
> {
    target_from(links, reference, 0)
}

/// The paths into the crate to which the text links from position `i` on.
pub open spec fn intralinks_from(s: Seq<char>, i: int) -> Seq<Seq<char>>
    decreases s.len() - i,
{
    if 0 <= i < s.len() {
        match intralink_at(s, i) {
            Some(end) => seq![s.subrange(i, end)] + intralinks_from(s, end),
            None => intralinks_from(s, i + 1),
        }
    } else {
        Seq::empty()
    }
}

/// The text from position `i` on, with the address in place of each path into
/// the crate that was resolved.
pub open spec fn resolved_from(s: Seq<char>, links: Seq<(Seq<char>, Seq<char>)>, i: int) -> Seq<
    char,
>
    decreases s.len() - i,
{
    if 0 <= i < s.len() {
        match intralink_at(s, i) {
            Some(end) => (match target_of(links, s.subrange(i, end)) {
                Some(target) => target,
                None => s.subrange(i, end),
            }) + resolved_from(s, links, end),
            None => seq![s[i]] + resolved_from(s, links, i + 1),
        }
    } else {
        Seq::empty()
    }
}

/// The paths into the crate, from position `i` on, that were not resolved.
pub open spec fn unresolved_from(s: Seq<char>, links: Seq<(Seq<char>, Seq<char>)>, i: int) -> Seq<
    Seq<char>,
>
    decreases s.len() - i,
{
    if 0 <= i < s.len() {
        match intralink_at(s, i) {
            Some(end) => (match target_of(links, s.subrange(i, end)) {
                Some(_) => Seq::empty(),
                None => seq![s.subrange(i, end)],
            }) + unresolved_from(s, links, end),
            None => unresolved_from(s, links, i + 1),
        }
    } else {
        Seq::empty()
    }
}

/// The warning that tells of a path that was not resolved.
pub open spec fn warning(reference: Seq<char>) -> Seq<char> {
    "Could not resolve definition of `"@ + reference + "`."@
}

/// What a text outside the code blocks holds: the paths into the crate to which
/// it links, the text with the addresses of those that were resolved, and those
/// that were not resolved.
pub struct Scan {
    pub text: String,
    pub intralinks: Vec<String>,
    pub unresolved: Vec<String>,
}

/// The address that the caller found for the path `reference`.
pub fn find_target<'a>(links: &'a Vec<ResolvedLink>, reference: &str) -> (r: Option<&'a String>)
    ensures
        match r {
            Some(target) => target_of(links_view(links@), reference@) == Some(target@),
            None => target_of(links_view(links@), reference@) is None,
        },
{
    let ghost model = links_view(links@);
    let mut i: usize = 0;
    while i < links.len()
        invariant
            i <= links.len(),
            model == links_view(links@),
            target_from(model, reference@, i as int) == target_of(model, reference@),
        decreases links.len() - i,
    {
        assert(model[i as int] == (links@[i as int].reference@, links@[i as int].target@));
        if text_eq(links[i].reference.as_str(), reference) {
            return Some(&links[i].target);
        }
        i += 1;
    }
    None
}

/// The end of the link into the crate that begins at `i`, if one begins there.
pub fn find_intralink(chars: &Vec<char>, i: usize) -> (r: Option<usize>)
    requires
        i < chars.len(),
    ensures
        match r {
            Some(end) => intralink_at(chars@, i as int) == Some(end as int) && i < end
                < chars.len(),
            None => intralink_at(chars@, i as int) is None,
        },
{
    let mut end: usize = i;
    while end < chars.len() && chars[end] != ')' && !is_whitespace_char(chars[end])
        invariant
            i <= end <= chars.len(),
            destination_end(chars@, end as int) == destination_end(chars@, i as int),
        decreases chars.len() - end,
    {
        end += 1;
    }
    if i < 2 || end <= i || end >= chars.len() || chars[i - 2] != ']' || chars[i - 1] != '(' {
        return None;
    }
    let destination = sub_vec(chars, i, end);
    if same_text(&destination, &chars_of("crate")) || starts_with(
        &destination,
        &chars_of("crate::"),
    ) {
        Some(end)
    } else {
        None
    }
}

/// Looks through `text` for links into the crate.
pub fn scan(text: &str, links: &Vec<ResolvedLink>) -> (r: Scan)
    ensures
        r.text@ == resolved_from(text@, links_view(links@), 0),
        texts(r.intralinks@) == intralinks_from(text@, 0),
        texts(r.unresolved@) == unresolved_from(text@, links_view(links@), 0),
{
    let chars = chars_of(text);
    let ghost s = chars@;
    let ghost model = links_view(links@);
    let mut out: Vec<char> = Vec::new();
    let mut found: Vec<String> = Vec::new();
    let mut unresolved: Vec<String> = Vec::new();
    let mut i: usize = 0;
    assert(texts(found@) =~= Seq::<Seq<char>>::empty());
    assert(texts(unresolved@) =~= Seq::<Seq<char>>::empty());
    while i < chars.len()
        invariant
            i <= chars.len(),
            s == chars@,
            s == text@,
            model == links_view(links@),
            out@ + resolved_from(s, model, i as int) == resolved_from(s, model, 0),
            texts(found@) + intralinks_from(s, i as int) == intralinks_from(s, 0),
            texts(unresolved@) + unresolved_from(s, model, i as int) == unresolved_from(
                s,
                model,
                0,
            ),
        decreases chars.len() - i,
    {
        let ghost written = out@;
        let ghost listed = texts(found@);
        let ghost missed = texts(unresolved@);
        match find_intralink(&chars, i) {
            Some(end) => {
                let reference = string_of(&chars, i, end);
                match find_target(links, reference.as_str()) {
                    Some(target) => {
                        push_str(&mut out, target.as_str());
                        assert(missed + unresolved_from(s, model, i as int) =~= missed
                            + unresolved_from(s, model, end as int));
                    },
                    None => {
                        push_range(&mut out, &chars, i, end);
                        unresolved.push(reference.clone());
                        assert(texts(unresolved@) =~= missed.push(reference@));
                        assert(missed + unresolved_from(s, model, i as int) =~= texts(unresolved@)
                            + unresolved_from(s, model, end as int));
                    },
                }
                found.push(reference);
                assert(texts(found@) =~= listed.push(reference@));
                assert(listed + intralinks_from(s, i as int) =~= texts(found@) + intralinks_from(
                    s,
                    end as int,
                ));
                assert(written + resolved_from(s, model, i as int) =~= out@ + resolved_from(
                    s,
                    model,
                    end as int,
                ));
                i = end;
            },
            None => {
                out.push(chars[i]);
                assert(written + resolved_from(s, model, i as int) =~= out@ + resolved_from(
                    s,
                    model,
                    i + 1,
                ));
                i += 1;
            },
        }
    }
    assert(out@ + Seq::<char>::empty() =~= out@);
    assert(texts(found@) + Seq::<Seq<char>>::empty() =~= texts(found@));
    assert(texts(unresolved@) + Seq::<Seq<char>>::empty() =~= texts(unresolved@));
    Scan { text: string_from(&out), intralinks: found, unresolved }
}

/// The text of a piece with the addresses of the links that were resolved. A Rust
/// code block is left as it is.
pub open spec fn resolved_piece(links: Seq<(Seq<char>, Seq<char>)>, piece: Piece<Seq<char>>) -> Seq<
    char,
> {
    match piece {
        Piece::Item(block) => block,
        Piece::Other(text) => resolved_from(text, links, 0),
    }
}

/// The paths into the crate to which a piece links. A Rust code block links to
/// none.
pub open spec fn intralinks_of_piece(piece: Piece<Seq<char>>) -> Seq<Seq<char>> {
    match piece {
        Piece::Item(_) => Seq::empty(),
        Piece::Other(text) => intralinks_from(text, 0),
    }
}

/// The paths into the crate to which a piece links and that were not resolved.
pub open spec fn unresolved_of_piece(links: Seq<(Seq<char>, Seq<char>)>, piece: Piece<Seq<char>>) -> Seq<
    Seq<char>,
> {
    match piece {
        Piece::Item(_) => Seq::empty(),
        Piece::Other(text) => unresolved_from(text, links, 0),
    }
}

/// The pieces of a text: its Rust code blocks and what stands around them.
pub open spec fn pieces_of(text: Seq<char>, events: Seq<(EventModel, Span)>) -> Seq<
    Piece<Seq<char>>,
> {
    completed(text, rust_blocks(text, events))
}

/// `text` with the address in place of each path into the crate that was
/// resolved, outside the Rust code blocks that `events` names.
pub open spec fn with_resolved_links(
    text: Seq<char>,
    events: Seq<(EventModel, Span)>,
    links: Seq<(Seq<char>, Seq<char>)>,
) -> Seq<char> {
    pieces_of(text, events).map_values(|p: Piece<Seq<char>>| resolved_piece(links, p)).flatten()
}

/// The paths into the crate to which `text` links outside its Rust code blocks,
/// in order.
pub open spec fn intralinks_in(text: Seq<char>, events: Seq<(EventModel, Span)>) -> Seq<Seq<char>> {
    pieces_of(text, events).map_values(|p: Piece<Seq<char>>| intralinks_of_piece(p)).flatten()
}

/// The paths into the crate to which `text` links outside its Rust code blocks
/// and that were not resolved, in order.
pub open spec fn unresolved_in(
    text: Seq<char>,
    events: Seq<(EventModel, Span)>,
    links: Seq<(Seq<char>, Seq<char>)>,
) -> Seq<Seq<char>> {
    pieces_of(text, events).map_values(|p: Piece<Seq<char>>| unresolved_of_piece(links, p)).flatten()
}

/// Appends the strings of `more` to `list`.
pub fn append_all(list: &mut Vec<String>, more: Vec<String>)
    ensures
        texts(final(list)@) == texts(old(list)@) + texts(more@),
{
    let ghost before = texts(list@);
    let mut rest = more;
    list.append(&mut rest);
    assert(texts(list@) =~= before + texts(more@));
}

/// Looks through `source` for links into the crate, outside the Rust code blocks
/// that `events` names.
pub fn scan_outside_blocks(
    source: &str,
    events: &Vec<(EventKind, Span)>,
    links: &Vec<ResolvedLink>,
) -> (r: Scan)
    ensures
        r.text@ == with_resolved_links(source@, events_view(events@), links_view(links@)),
        texts(r.intralinks@) == intralinks_in(source@, events_view(events@)),
        texts(r.unresolved@) == unresolved_in(source@, events_view(events@), links_view(links@)),
{
    let blocks = rust_code_blocks(source, events);
    let ghost items = blocks.entries();
    let list = blocks.complete();
    let ghost model = pieces(list@).map_values(|p: Piece<&str>| piece_model(p));
    let ghost table = links_view(links@);
    let ghost resolve = |p: Piece<Seq<char>>| resolved_piece(table, p);
    let ghost listing = |p: Piece<Seq<char>>| intralinks_of_piece(p);
    let ghost missing = |p: Piece<Seq<char>>| unresolved_of_piece(table, p);
    proof {
        lemma_completed_texts(source@, items, items.len() as int);
    }
    let mut out: Vec<char> = Vec::new();
    let mut found: Vec<String> = Vec::new();
    let mut unresolved: Vec<String> = Vec::new();
    let mut k: usize = 0;
    assert(texts(found@) =~= model.take(0).map_values(listing).flatten());
    assert(texts(unresolved@) =~= model.take(0).map_values(missing).flatten());
    while k < list.len()
        invariant
            k <= list.len(),
            model == pieces(list@).map_values(|p: Piece<&str>| piece_model(p)),
            table == links_view(links@),
            resolve == |p: Piece<Seq<char>>| resolved_piece(table, p),
            listing == |p: Piece<Seq<char>>| intralinks_of_piece(p),
            missing == |p: Piece<Seq<char>>| unresolved_of_piece(table, p),
            out@ == model.take(k as int).map_values(resolve).flatten(),
            texts(found@) == model.take(k as int).map_values(listing).flatten(),
            texts(unresolved@) == model.take(k as int).map_values(missing).flatten(),
        decreases list.len() - k,
    {
        let ghost piece = model[k as int];
        let ghost written = model.take(k as int).map_values(resolve);
        let ghost listed = model.take(k as int).map_values(listing);
        let ghost missed = model.take(k as int).map_values(missing);
        proof {
            assert(model.take(k + 1).map_values(resolve) =~= written.push(
                resolved_piece(table, piece),
            ));
            assert(model.take(k + 1).map_values(listing) =~= listed.push(
                intralinks_of_piece(piece),
            ));
            assert(model.take(k + 1).map_values(missing) =~= missed.push(
                unresolved_of_piece(table, piece),
            ));
            written.lemma_flatten_push(resolved_piece(table, piece));
            listed.lemma_flatten_push(intralinks_of_piece(piece));
            missed.lemma_flatten_push(unresolved_of_piece(table, piece));
        }
        match &list[k] {
            ItemOrOther::Item(block) => {
                push_str(&mut out, block);
                assert(texts(found@) + Seq::<Seq<char>>::empty() =~= texts(found@));
                assert(texts(unresolved@) + Seq::<Seq<char>>::empty() =~= texts(unresolved@));
            },
            ItemOrOther::Other(text) => {
                let part = scan(text, links);
                push_str(&mut out, part.text.as_str());
                append_all(&mut found, part.intralinks);
                append_all(&mut unresolved, part.unresolved);
            },
        }
        k += 1;
    }
    assert(model.take(list@.len() as int) == model);
    Scan { text: string_from(&out), intralinks: found, unresolved }
}

/// The kind of an item of a crate.
#[derive(Clone, Copy, Debug, PartialEq, Eq, Structural)]
pub enum ItemKind {
    Module,
    Struct,
    Enum,
    Union,
    Trait,
    Type,
    Function,
    Constant,
    Static,
    Macro,
}

/// The word by which rustdoc names the page of an item of this kind.
pub open spec fn kind_word(kind: ItemKind) -> Seq<char> {
    match kind {
        ItemKind::Module => "mod"@,
        ItemKind::Struct => "struct"@,
        ItemKind::Enum => "enum"@,
        ItemKind::Union => "union"@,
        ItemKind::Trait => "trait"@,
        ItemKind::Type => "type"@,
        ItemKind::Function => "fn"@,
        ItemKind::Constant => "constant"@,
        ItemKind::Static => "static"@,
        ItemKind::Macro => "macro"@,
    }
}

/// The name of the crate of a package: the name of the package with an
/// underscore for each hyphen.
pub open spec fn crate_name(package: Seq<char>) -> Seq<char> {
    package.map_values(|c: char| if c == '-' { '_' } else { c })
}

/// The names of which a path is made: what stands between its colons.
pub open spec fn segments(path: Seq<char>) -> Seq<Seq<char>> {
    split_on(path, ':').filter(|segment: Seq<char>| segment.len() > 0)
}

/// The page of an item below the pages of its crate: the modules of its path as
/// directories, then `index.html` in the directory of a module, or the page that
/// rustdoc names by the kind and the name of any other item. The first name of
/// the path, `crate`, stands for the pages of the crate.
pub open spec fn page(reference: Seq<char>, kind: ItemKind) -> Seq<char> {
    if segments(reference).len() <= 1 {
        "index.html"@
    } else {
        let names = segments(reference).drop_first();
        let directories = names.drop_last().map_values(|name: Seq<char>| name + seq!['/']).flatten();
        if kind == ItemKind::Module {
            directories + names.last() + "/index.html"@
        } else {
            directories + kind_word(kind) + seq!['.'] + names.last() + ".html"@
        }
    }
}

/// The address of the page that documents an item of a package, given the
/// address `base` below which the documentation of the package's crates stands.
pub open spec fn documentation_address(
    base: Seq<char>,
    package: Seq<char>,
    reference: Seq<char>,
    kind: ItemKind,
) -> Seq<char> {
    base + seq!['/'] + crate_name(package) + seq!['/'] + page(reference, kind)
}

/// The word by which rustdoc names the page of an item of the kind `kind`.
pub fn word_of(kind: ItemKind) -> (r: &'static str)
    ensures
        r@ == kind_word(kind),
{
    match kind {
        ItemKind::Module => "mod",
        ItemKind::Struct => "struct",
        ItemKind::Enum => "enum",
        ItemKind::Union => "union",
        ItemKind::Trait => "trait",
        ItemKind::Type => "type",
        ItemKind::Function => "fn",
        ItemKind::Constant => "constant",
        ItemKind::Static => "static",
        ItemKind::Macro => "macro",
    }
}

/// The names of which `path` is made.
pub fn names_of(path: &str) -> (r: Vec<String>)
    ensures
        texts(r@) == segments(path@),
{
    let chars = chars_of(path);
    let spans = split_at_char(&chars, ':');
    let ghost all = split_on(path@, ':');
    let ghost filled = |segment: Seq<char>| segment.len() > 0;
    proof {
        assert(chars@.len() == chars.len());
        lemma_split_spans(chars@, ':', 0);
    }
    let mut names: Vec<String> = Vec::new();
    let mut k: usize = 0;
    assert(texts(names@) =~= all.take(0).filter(filled)) by {
        broadcast use vstd::seq_lib::group_filter_ensures;

    }
    while k < spans.len()
        invariant
            k <= spans.len(),
            chars@ == path@,
            all == split_on(path@, ':'),
            spans@ == split_spans(chars@, ':'),
            filled == |segment: Seq<char>| segment.len() > 0,
            forall|i: int| 0 <= i < spans@.len() ==> (#[trigger] spans@[i]).fits(chars@.len()),
            texts(names@) == all.take(k as int).filter(filled),
        decreases spans.len() - k,
    {
        let span = spans[k];
        let ghost before = texts(names@);
        proof {
            assert(all[k as int] == span.of(chars@));
            assert(all.take(k + 1) == all.take(k as int).push(all[k as int]));
            all.take(k as int).lemma_filter_push(all[k as int], filled);
        }
        if span.end > span.start {
            names.push(string_of(&chars, span.start, span.end));
            assert(texts(names@) =~= before.push(span.of(chars@)));
        }
        k += 1;
    }
    assert(all.take(spans@.len() as int) == all);
    names
}

/// The address of the page that documents the item `reference` of the kind
/// `kind` in the package `package`, given the address `base` below which the
/// documentation of the package's crates stands.
pub fn documentation_url(base: &str, package: &str, reference: &str, kind: ItemKind) -> (r: String)
    ensures
        r@ == documentation_address(base@, package@, reference@, kind),
{
    let mut out: Vec<char> = Vec::new();
    push_str(&mut out, base);
    out.push('/');
    let name = chars_of(package);
    let ghost head = out@;
    let mut i: usize = 0;
    while i < name.len()
        invariant
            i <= name.len(),
            name@ == package@,
            out@ == head + crate_name(name@.take(i as int)),
        decreases name.len() - i,
    {
        let c = name[i];
        out.push(if c == '-' { '_' } else { c });
        i += 1;
        assert(out@ =~= head + crate_name(name@.take(i as int)));
    }
    assert(name@.take(name@.len() as int) == name@);
    out.push('/');
    let names = names_of(reference);
    let ghost below = texts(names@).drop_first();
    let ghost slashed = |name: Seq<char>| name + seq!['/'];
    let ghost start = out@;
    if names.len() <= 1 {
        push_str(&mut out, "index.html");
        let r = string_from(&out);
        assert(r@ =~= documentation_address(base@, package@, reference@, kind));
        return r;
    }
    let last: usize = names.len() - 1;
    let mut k: usize = 1;
    assert(below.drop_last().take(0).map_values(slashed).flatten() =~= Seq::<char>::empty());
    while k < last
        invariant
            1 <= k <= last,
            last == names@.len() - 1,
            below == texts(names@).drop_first(),
            slashed == |name: Seq<char>| name + seq!['/'],
            out@ == start + below.drop_last().take(k - 1).map_values(slashed).flatten(),
        decreases last - k,
    {
        let ghost dirs = below.drop_last().take(k - 1).map_values(slashed);
        proof {
            assert(below.drop_last()[k - 1] == names@[k as int]@);
            assert(below.drop_last().take(k as int).map_values(slashed) =~= dirs.push(
                names@[k as int]@ + seq!['/'],
            ));
            dirs.lemma_flatten_push(names@[k as int]@ + seq!['/']);
        }
        push_str(&mut out, names[k].as_str());
        out.push('/');
        k += 1;
    }
    assert(below.drop_last().take(last - 1) == below.drop_last());
    assert(below.last() == names@[last as int]@);
    match kind {
        ItemKind::Module => {
            push_str(&mut out, names[last].as_str());
            push_str(&mut out, "/index.html");
        },
        _ => {
            push_str(&mut out, word_of(kind));
            out.push('.');
            push_str(&mut out, names[last].as_str());
            push_str(&mut out, ".html");
        },
    }
    let r = string_from(&out);
    assert(r@ =~= documentation_address(base@, package@, reference@, kind));
    r
}

/// The paths into the crate to which documentation links.
pub open spec fn doc_intralinks(doc: Seq<char>) -> Seq<Seq<char>> {
    intralinks_in(doc, markdown_events(doc))
}

/// Documentation with the address in place of each path into the crate that was
/// resolved.
pub open spec fn doc_resolved(doc: Seq<char>, links: Seq<(Seq<char>, Seq<char>)>) -> Seq<char> {
    with_resolved_links(doc, markdown_events(doc), links)
}

/// The warnings of the paths into the crate that were not resolved.
pub open spec fn doc_warnings(doc: Seq<char>, links: Seq<(Seq<char>, Seq<char>)>) -> Seq<
    Seq<char>,
> {
    unresolved_in(doc, markdown_events(doc), links).map_values(
        |reference: Seq<char>| warning(reference),
    )
}

/// Gives the links to items of the crate their addresses.
pub struct DocTransformIntralinks<'a> {
    links: &'a Vec<ResolvedLink>,
}

impl<'a> DocTransformIntralinks<'a> {
    /// The links that were resolved.
    pub closed spec fn resolved(&self) -> Seq<(Seq<char>, Seq<char>)> {
        links_view(self.links@)
    }

    /// The transform that knows the links `links`.
    #[must_use]
    pub fn new(links: &'a Vec<ResolvedLink>) -> (r: DocTransformIntralinks<'a>)
        ensures
            r.resolved() == links_view(links@),
    {
        DocTransformIntralinks { links }
    }

    /// The documentation with the address in place of each path into the crate
    /// that was resolved.
    pub fn transform(&self, doc: &Doc) -> (r: Doc)
        ensures
            r.content@ == doc_resolved(doc.content@, self.resolved()),
    {
        let events = parse_markdown(doc.content.as_str());
        Doc { content: scan_outside_blocks(doc.content.as_str(), &events, self.links).text }
    }

    /// The paths into the crate to which the documentation links, in order.
    pub fn intralinks(&self, doc: &Doc) -> (r: Vec<String>)
        ensures
            texts(r@) == doc_intralinks(doc.content@),
    {
        let events = parse_markdown(doc.content.as_str());
        scan_outside_blocks(doc.content.as_str(), &events, self.links).intralinks
    }

    /// The warnings of the links that were not resolved, in order.
    pub fn warnings(&self, doc: &Doc) -> (r: Vec<String>)
        ensures
            texts(r@) == doc_warnings(doc.content@, self.resolved()),
    {
        let events = parse_markdown(doc.content.as_str());
        let unresolved = scan_outside_blocks(doc.content.as_str(), &events, self.links).unresolved;
        let ghost tell = |reference: Seq<char>| warning(reference);
        let mut out: Vec<String> = Vec::new();
        let mut k: usize = 0;
        assert(texts(out@) =~= texts(unresolved@).take(0).map_values(tell));
        while k < unresolved.len()
            invariant
                k <= unresolved.len(),
                tell == |reference: Seq<char>| warning(reference),
                texts(out@) == texts(unresolved@).take(k as int).map_values(tell),
            decreases unresolved.len() - k,
        {
            let ghost before = texts(out@);
            let mut text: Vec<char> = Vec::new();
            push_str(&mut text, "Could not resolve definition of `");
            push_str(&mut text, unresolved[k].as_str());
            push_str(&mut text, "`.");
            out.push(string_from(&text));
            assert(texts(out@) =~= before.push(warning(unresolved@[k as int]@)));
            k += 1;
            assert(texts(out@) =~= texts(unresolved@).take(k as int).map_values(tell));
        }
        assert(texts(unresolved@).take(unresolved@.len() as int) == texts(unresolved@));
        out
    }
}

} // verus!
