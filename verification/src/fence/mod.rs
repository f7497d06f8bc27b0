//! Fences: the delimited blocks of a document that are replaced by generated text.
//!
//! A line that begins with three backticks is a fence line. Fence lines pair up in
//! the order in which they stand: the first opens a section and the next one closes
//! it, whatever follows the backticks on either. A fence line that no later fence
//! line closes opens nothing.
use vstd::prelude::*;
use crate::config::{ConfigError, ConfigFault};
use crate::rustdoc_parse::Environment;
use crate::rustdoc_parse::options::{import_request_of, ImportRequest};
use crate::text::{chars_of, lemma_line_spans, line_spans, lines, split_lines, string_of, TextRange};
use self::rustdoc::{import_text, is_rustdoc_name, render_view, RustDocFence};
use self::toc::{
    headings, is_toc_name, lowercase, table_of_contents, toc_layout_of, TocFence, TocLayout,
};

pub mod rustdoc;
pub mod toc;

verus! {

/// Why a document could not be processed.
#[derive(Debug)]
pub enum FenceError {
    /// The configuration of a fence was refused. `at` is the position at which the
    /// fence begins, counted in characters, `name` its opening line.
    Config { at: usize, name: String, cause: ConfigError },
    /// A fence asks for a package that the work space does not have. `at` is the
    /// position at which the fence begins, `package` the name it asks for.
    PackageNotFound { at: usize, package: String },
}

/// The model of a `FenceError`.
pub enum FenceFault {
    Config { at: nat, name: Seq<char>, cause: ConfigFault },
    PackageNotFound { at: nat, package: Seq<char> },
}

impl View for FenceError {
    type V = FenceFault;

    open spec fn view(&self) -> FenceFault {
        match self {
            FenceError::Config { at, name, cause } => FenceFault::Config {
                at: *at as nat,
                name: name@,
                cause: cause@,
            },
            FenceError::PackageNotFound { at, package } => FenceFault::PackageNotFound {
                at: *at as nat,
                package: package@,
            },
        }
    }
}

/// The three backticks that begin a fence line.
pub open spec fn fence_mark() -> Seq<char> {
    seq!['`', '`', '`']
}

/// Whether a line opens or closes a fenced section.
pub open spec fn is_fence_line(line: Seq<char>) -> bool {
    fence_mark().is_prefix_of(line)
}

/// The index of the fence line that is still unclosed after the first `k` lines,
/// if there is one.
pub open spec fn open_fence(lines: Seq<Seq<char>>, k: int) -> Option<int>
    decreases k,
{
    if k <= 0 {
        None
    } else if is_fence_line(lines[k - 1]) {
        match open_fence(lines, k - 1) {
            Some(_) => None,
            None => Some(k - 1),
        }
    } else {
        open_fence(lines, k - 1)
    }
}

/// Whether line `k` belongs to a fenced section: it is a fence line or stands
/// between an opening fence line and the next fence line.
pub open spec fn in_fenced_section(lines: Seq<Seq<char>>, k: int) -> bool {
    open_fence(lines, k) is Some || is_fence_line(lines[k])
}

/// The sections closed within the first `k` lines, each as the indices of its
/// opening and its closing line.
pub open spec fn sections_upto(lines: Seq<Seq<char>>, k: int) -> Seq<(int, int)>
    decreases k,
{
    if k <= 0 {
        Seq::empty()
    } else {
        let before = sections_upto(lines, k - 1);
        match open_fence(lines, k - 1) {
            Some(open) if is_fence_line(lines[k - 1]) => before.push((open, k - 1)),
            _ => before,
        }
    }
}

/// A fenced section of a document, given by its opening and its closing line.
#[derive(Clone, Copy, Debug, PartialEq, Eq, Structural)]
pub struct SectionSpan {
    /// The opening fence line, without its line ending.
    pub start_line: TextRange,
    /// The closing fence line, without its line ending.
    pub end_line: TextRange,
}

impl SectionSpan {
    /// The section with both fence lines.
    pub open spec fn outer(self) -> TextRange {
        TextRange { start: self.start_line.start, end: self.end_line.end }
    }

    /// What stands between the two fence lines, line endings included.
    pub open spec fn inner(self) -> TextRange {
        TextRange { start: self.start_line.end, end: self.end_line.start }
    }

    /// The opening line ends before the closing line begins, and both lie in a
    /// text of `len` characters.
    pub open spec fn fits(self, len: nat) -> bool {
        &&& self.start_line.start <= self.start_line.end
        &&& self.start_line.end < self.end_line.start
        &&& self.end_line.start <= self.end_line.end <= len
    }

    /// The range of the section with both fence lines.
    pub fn outer_range(&self) -> (r: TextRange)
        ensures
            r == self.outer(),
    {
        TextRange { start: self.start_line.start, end: self.end_line.end }
    }

    /// The range of what stands between the two fence lines.
    pub fn inner_range(&self) -> (r: TextRange)
        ensures
            r == self.inner(),
    {
        TextRange { start: self.start_line.end, end: self.end_line.start }
    }
}

/// The section that the lines `pair.0` and `pair.1` of `s` delimit.
pub open spec fn section_of(s: Seq<char>, pair: (int, int)) -> SectionSpan {
    SectionSpan { start_line: line_spans(s)[pair.0], end_line: line_spans(s)[pair.1] }
}

/// The fenced sections of `s`, in the order in which they stand.
pub open spec fn section_spans(s: Seq<char>) -> Seq<SectionSpan> {
    sections_upto(lines(s), lines(s).len() as int).map_values(|pair: (int, int)| section_of(s, pair))
}

/// An unclosed fence line lies among the lines read so far, and every section read
/// so far closes after it opens, within those lines and after the section before.
pub proof fn lemma_sections_upto(lines: Seq<Seq<char>>, k: int)
    requires
        0 <= k <= lines.len(),
    ensures
        open_fence(lines, k) matches Some(open) ==> 0 <= open < k && is_fence_line(lines[open]),
        forall|i: int|
            0 <= i < sections_upto(lines, k).len() ==> {
                let pair = #[trigger] sections_upto(lines, k)[i];
                &&& 0 <= pair.0 < pair.1 < k
                &&& is_fence_line(lines[pair.0])
                &&& is_fence_line(lines[pair.1])
                &&& open_fence(lines, k) matches Some(open) ==> pair.1 < open
            },
        forall|i: int, j: int|
            0 <= i < j < sections_upto(lines, k).len() ==> (#[trigger] sections_upto(lines, k)[i]).1
                < (#[trigger] sections_upto(lines, k)[j]).0,
    decreases k,
{
    if k > 0 {
        lemma_sections_upto(lines, k - 1);
        let before = sections_upto(lines, k - 1);
        let now = sections_upto(lines, k);
        assert forall|i: int| 0 <= i < now.len() implies {
            let pair = #[trigger] now[i];
            &&& 0 <= pair.0 < pair.1 < k
            &&& is_fence_line(lines[pair.0])
            &&& is_fence_line(lines[pair.1])
            &&& open_fence(lines, k) matches Some(open) ==> pair.1 < open
        } by {
            if i < before.len() {
                assert(now[i] == before[i]);
            }
        }
        assert forall|i: int, j: int| 0 <= i < j < now.len() implies (#[trigger] now[i]).1 < (
        #[trigger] now[j]).0 by {
            assert(now[i] == before[i]);
            if j < before.len() {
                assert(now[j] == before[j]);
            }
        }
    }
}

/// The sections pair the fence lines up: a section runs from a fence line to the
/// first fence line after it, every fence line opens or closes a section, but for
/// one that no later fence line closes, and that one has no fence line after it.
pub proof fn lemma_sections_pair_fence_lines(lines: Seq<Seq<char>>, k: int)
    requires
        0 <= k <= lines.len(),
    ensures
        forall|i: int, m: int|
            0 <= i < sections_upto(lines, k).len() && (#[trigger] sections_upto(lines, k)[i]).0 < m
                < sections_upto(lines, k)[i].1 ==> !is_fence_line(#[trigger] lines[m]),
        open_fence(lines, k) matches Some(open) ==> forall|m: int|
            open < m < k ==> !is_fence_line(#[trigger] lines[m]),
        forall|m: int|
            0 <= m < k && is_fence_line(#[trigger] lines[m]) ==> open_fence(lines, k) == Some(m)
                || exists|i: int|
                0 <= i < sections_upto(lines, k).len() && ((#[trigger] sections_upto(
                    lines,
                    k,
                )[i]).0 == m || sections_upto(lines, k)[i].1 == m),
    decreases k,
{
    if k > 0 {
        lemma_sections_pair_fence_lines(lines, k - 1);
        lemma_sections_upto(lines, k - 1);
        let before = sections_upto(lines, k - 1);
        let now = sections_upto(lines, k);
        assert forall|i: int, m: int|
            0 <= i < now.len() && (#[trigger] now[i]).0 < m < now[i].1 implies !is_fence_line(
            #[trigger] lines[m],
        ) by {
            if i < before.len() {
                assert(now[i] == before[i]);
            }
        }
        assert forall|m: int| 0 <= m < k && is_fence_line(#[trigger] lines[m]) implies open_fence(
            lines,
            k,
        ) == Some(m) || exists|i: int|
            0 <= i < now.len() && ((#[trigger] now[i]).0 == m || now[i].1 == m) by {
            if m < k - 1 {
                if open_fence(lines, k - 1) == Some(m) {
                    if is_fence_line(lines[k - 1]) {
                        assert(now[now.len() - 1].0 == m);
                    }
                } else {
                    let i = choose|i: int|
                        0 <= i < before.len() && ((#[trigger] before[i]).0 == m || before[i].1 == m);
                    assert(now[i] == before[i]);
                }
            } else {
                if open_fence(lines, k - 1) is Some {
                    assert(now[now.len() - 1].1 == m);
                }
            }
        }
    }
}

/// Whether the line `span` of `chars` is a fence line.
pub fn is_fence_span(chars: &Vec<char>, span: TextRange) -> (r: bool)
    requires
        span.fits(chars@.len()),
    ensures
        r == is_fence_line(span.of(chars@)),
{
    if span.end - span.start < 3 {
        return false;
    }
    let r = chars[span.start] == '`' && chars[span.start + 1] == '`' && chars[span.start + 2]
        == '`';
    proof {
        let line = span.of(chars@);
        assert(line[0] == chars@[span.start as int]);
        assert(line[1] == chars@[span.start + 1]);
        assert(line[2] == chars@[span.start + 2]);
        if r {
            assert(line.subrange(0, 3) =~= fence_mark());
        } else {
            assert(line.subrange(0, 3)[0] == line[0]);
            assert(line.subrange(0, 3)[1] == line[1]);
            assert(line.subrange(0, 3)[2] == line[2]);
        }
    }
    r
}

/// The fenced sections of `chars`, in the order in which they stand.
pub fn find_sections(chars: &Vec<char>) -> (r: Vec<SectionSpan>)
    ensures
        r@ == section_spans(chars@),
        forall|i: int| 0 <= i < r@.len() ==> (#[trigger] r@[i]).fits(chars@.len()),
        forall|i: int, j: int|
            0 <= i < j < r@.len() ==> (#[trigger] r@[i]).end_line.end < (
            #[trigger] r@[j]).start_line.start,
{
    let spans = split_lines(chars);
    let ghost s = chars@;
    let ghost ls = lines(s);
    proof {
        assert(s.len() == chars.len());
        lemma_line_spans(s, 0);
    }
    let mut out: Vec<SectionSpan> = Vec::new();
    let mut open: Option<TextRange> = None;
    let ghost mut open_index: int = 0;
    let mut k: usize = 0;
    while k < spans.len()
        invariant
            k <= spans.len(),
            s == chars@,
            ls == lines(s),
            spans@ == line_spans(s),
            ls.len() == spans@.len(),
            forall|i: int| 0 <= i < spans@.len() ==> (#[trigger] spans@[i]).fits(s.len()),
            forall|i: int, j: int|
                0 <= i < j < spans@.len() ==> (#[trigger] spans@[i]).end < (
                #[trigger] spans@[j]).start,
            open is Some <==> open_fence(ls, k as int) is Some,
            open matches Some(line) ==> open_fence(ls, k as int) == Some(open_index) && line
                == spans@[open_index],
            out@ == sections_upto(ls, k as int).map_values(|pair: (int, int)| section_of(s, pair)),
        decreases spans.len() - k,
    {
        let line = spans[k];
        assert(ls[k as int] == line.of(s));
        let ghost before = sections_upto(ls, k as int);
        if is_fence_span(chars, line) {
            match open {
                Some(start_line) => {
                    out.push(SectionSpan { start_line, end_line: line });
                    open = None;
                    assert(out@ =~= before.push((open_index, k as int)).map_values(
                        |pair: (int, int)| section_of(s, pair),
                    ));
                },
                None => {
                    open = Some(line);
                    proof {
                        open_index = k as int;
                    }
                },
            }
        }
        k += 1;
    }
    proof {
        lemma_sections_upto(ls, ls.len() as int);
    }
    out
}

/// A fence of a document: a fenced section whose opening line names one of the
/// kinds of fence.
pub enum Fence {
    /// A fence that is replaced by a table of contents.
    Toc(TocFence),
    /// A fence that is replaced by the documentation of a crate.
    RustDoc(RustDocFence),
}

/// The model of a `Fence`.
pub enum FenceModel {
    Toc { layout: TocLayout, outer: TextRange },
    RustDoc { request: ImportRequest, outer: TextRange },
}

impl View for Fence {
    type V = FenceModel;

    open spec fn view(&self) -> FenceModel {
        match self {
            Fence::Toc(fence) => FenceModel::Toc { layout: fence.conf@, outer: fence.outer },
            Fence::RustDoc(fence) => FenceModel::RustDoc {
                request: fence.conf@,
                outer: fence.outer,
            },
        }
    }
}

impl FenceModel {
    /// The range of the fence in the document in which it was found, both fence
    /// lines included.
    pub open spec fn outer(self) -> TextRange {
        match self {
            FenceModel::Toc { outer, .. } => outer,
            FenceModel::RustDoc { outer, .. } => outer,
        }
    }

    /// The rank in which the fence is run. A fence that imports documentation
    /// has a lower rank than a table of contents, so that the table lists the
    /// headings of what was imported.
    pub open spec fn rank(self) -> u8 {
        match self {
            FenceModel::Toc { .. } => 10,
            FenceModel::RustDoc { .. } => 1,
        }
    }

    /// What the fence is replaced by when the document holds `document`.
    pub open spec fn replacement(self, document: Seq<char>, environment: Environment) -> Result<
        Seq<char>,
        FenceFault,
    > {
        match self {
            FenceModel::Toc { layout, .. } => Ok(table_of_contents(headings(document), layout)),
            FenceModel::RustDoc { request, outer } => import_text(
                request,
                environment,
                outer.start as nat,
            ),
        }
    }
}

/// The models of a list of fences.
pub open spec fn fences_view(list: Seq<Fence>) -> Seq<FenceModel> {
    list.map_values(|f: Fence| f@)
}

/// The fault of a fence whose configuration was refused.
pub open spec fn config_fault(s: Seq<char>, section: SectionSpan, cause: ConfigFault) -> FenceFault {
    FenceFault::Config {
        at: section.start_line.start as nat,
        name: section.start_line.of(s),
        cause,
    }
}

/// The fence that a section of `s` holds, if its opening line names one. The
/// opening line is put in lower case; if it ends as a table of contents does, the
/// section is one, else if it ends as an import of documentation does, it is
/// that, and any other section is no fence.
pub open spec fn fence_of(s: Seq<char>, section: SectionSpan) -> Result<
    Option<FenceModel>,
    FenceFault,
> {
    let name = lowercase(section.start_line.of(s));
    let body = section.inner().of(s);
    if is_toc_name(name) {
        match toc_layout_of(body) {
            Ok(layout) => Ok(Some(FenceModel::Toc { layout, outer: section.outer() })),
            Err(cause) => Err(config_fault(s, section, cause)),
        }
    } else if is_rustdoc_name(name) {
        match import_request_of(body) {
            Ok(request) => Ok(Some(FenceModel::RustDoc { request, outer: section.outer() })),
            Err(cause) => Err(config_fault(s, section, cause)),
        }
    } else {
        Ok(None)
    }
}

/// The fences among the first `k` sections of `s`, in order, or the fault of the
/// first section whose configuration was refused.
pub open spec fn fences_upto(s: Seq<char>, sections: Seq<SectionSpan>, k: int) -> Result<
    Seq<FenceModel>,
    FenceFault,
>
    decreases k,
{
    if k <= 0 {
        Ok(Seq::empty())
    } else {
        match fences_upto(s, sections, k - 1) {
            Err(e) => Err(e),
            Ok(before) => match fence_of(s, sections[k - 1]) {
                Err(e) => Err(e),
                Ok(None) => Ok(before),
                Ok(Some(fence)) => Ok(before.push(fence)),
            },
        }
    }
}

/// The fences of a document, in the order in which they stand, or the fault of
/// the first fence whose configuration was refused.
pub open spec fn fences(s: Seq<char>) -> Result<Seq<FenceModel>, FenceFault> {
    fences_upto(s, section_spans(s), section_spans(s).len() as int)
}

/// Whether the ranges lie in a text of `len` characters, one after another.
pub open spec fn in_order(ranges: Seq<TextRange>, len: nat) -> bool {
    &&& forall|i: int| 0 <= i < ranges.len() ==> (#[trigger] ranges[i]).fits(len)
    &&& forall|i: int, j: int|
        0 <= i < j < ranges.len() ==> (#[trigger] ranges[i]).end <= (#[trigger] ranges[j]).start
}

/// The ranges of a list of fences.
pub open spec fn outer_ranges(list: Seq<FenceModel>) -> Seq<TextRange> {
    list.map_values(|f: FenceModel| f.outer())
}

/// The model of what creating a fence gave.
pub open spec fn created_view(r: Result<Option<Fence>, FenceError>) -> Result<
    Option<FenceModel>,
    FenceFault,
> {
    match r {
        Ok(Some(fence)) => Ok(Some(fence@)),
        Ok(None) => Ok(None),
        Err(e) => Err(e@),
    }
}

/// The model of what looking for fences gave.
pub open spec fn found_view(r: Result<Vec<Fence>, FenceError>) -> Result<
    Seq<FenceModel>,
    FenceFault,
> {
    match r {
        Ok(list) => Ok(fences_view(list@)),
        Err(e) => Err(e@),
    }
}

impl Fence {
    /// The rank in which the fence is run: fences run in the order of their
    /// ranks, and fences of one rank in the order in which they stand.
    pub fn priority(&self) -> (r: u8)
        ensures
            r == self@.rank(),
    {
        match self {
            Fence::Toc(fence) => fence.priority(),
            Fence::RustDoc(fence) => fence.priority(),
        }
    }

    /// The range of the fence in the document in which it was found.
    pub fn outer_range(&self) -> (r: TextRange)
        ensures
            r == self@.outer(),
    {
        match self {
            Fence::Toc(fence) => fence.outer,
            Fence::RustDoc(fence) => fence.outer,
        }
    }

    /// What the fence is replaced by when the document holds `document`.
    pub fn render(&self, document: &str, environment: &Environment) -> (r: Result<
        String,
        FenceError,
    >)
        ensures
            render_view(r) == self@.replacement(document@, *environment),
    {
        match self {
            Fence::Toc(fence) => Ok(fence.render(document)),
            Fence::RustDoc(fence) => fence.render(environment),
        }
    }

    /// Replaces the fence in `document` by what it generates. On an error the
    /// document is left as it was.
    pub fn run(&self, document: &mut String, environment: &Environment) -> (r: Result<
        (),
        FenceError,
    >)
        requires
            self@.outer().fits(old(document)@.len()),
        ensures
            match r {
                Ok(_) => self@.replacement(old(document)@, *environment) matches Ok(text)
                    && final(document)@ == crate::text::spliced(
                    old(document)@,
                    self@.outer(),
                    text,
                ),
                Err(e) => self@.replacement(old(document)@, *environment) == Err::<Seq<char>, _>(
                    e@,
                ) && final(document)@ == old(document)@,
            },
    {
        match self {
            Fence::Toc(fence) => fence.run(document),
            Fence::RustDoc(fence) => fence.run(document, environment),
        }
    }
}

/// The fence that the section `section` of `document` holds, if its opening line
/// names one.
pub fn create_fence(document: &Vec<char>, section: SectionSpan) -> (r: Result<
    Option<Fence>,
    FenceError,
>)
    requires
        section.fits(document@.len()),
    ensures
        created_view(r) == fence_of(document@, section),
{
    let name = string_of(document, section.start_line.start, section.start_line.end);
    if TocFence::is_match(name.as_str()) {
        match TocFence::create(document, section) {
            Ok(fence) => Ok(Some(Fence::Toc(fence))),
            Err(e) => Err(e),
        }
    } else if RustDocFence::is_match(name.as_str()) {
        match RustDocFence::create(document, section) {
            Ok(fence) => Ok(Some(Fence::RustDoc(fence))),
            Err(e) => Err(e),
        }
    } else {
        Ok(None)
    }
}

/// The fences of `document`, in the order in which they stand. They lie one
/// after another, none inside another.
pub fn find_fences_in(document: &Vec<char>) -> (r: Result<Vec<Fence>, FenceError>)
    ensures
        found_view(r) == fences(document@),
        r matches Ok(list) ==> in_order(outer_ranges(fences_view(list@)), document@.len()),
{
    let sections = find_sections(document);
    let ghost s = document@;
    let mut out: Vec<Fence> = Vec::new();
    let mut k: usize = 0;
    assert(fences_view(out@) =~= Seq::<FenceModel>::empty());
    while k < sections.len()
        invariant
            k <= sections.len(),
            s == document@,
            sections@ == section_spans(s),
            forall|i: int| 0 <= i < sections@.len() ==> (#[trigger] sections@[i]).fits(s.len()),
            forall|i: int, j: int|
                0 <= i < j < sections@.len() ==> (#[trigger] sections@[i]).end_line.end < (
                #[trigger] sections@[j]).start_line.start,
            fences_upto(s, sections@, k as int) == Ok::<_, FenceFault>(fences_view(out@)),
            forall|i: int|
                0 <= i < out@.len() ==> (#[trigger] out@[i])@.outer().fits(s.len()) && exists|
                    j: int,
                |
                    0 <= j < k && out@[i]@.outer() == (#[trigger] sections@[j]).outer(),
            forall|i: int, j: int|
                0 <= i < j < out@.len() ==> (#[trigger] out@[i])@.outer().end <= (
                #[trigger] out@[j])@.outer().start,
        decreases sections.len() - k,
    {
        let section = sections[k];
        let ghost before = out@;
        match create_fence(document, section) {
            Err(e) => {
                proof {
                    lemma_fences_fail(s, sections@, k + 1, sections@.len() as int);
                }
                return Err(e);
            },
            Ok(None) => {},
            Ok(Some(fence)) => {
                out.push(fence);
                assert(fences_view(out@) =~= fences_view(before).push(fence@));
                assert forall|i: int| 0 <= i < out@.len() implies (#[trigger] out@[i])@.outer().fits(
                    s.len(),
                ) && exists|j: int|
                    0 <= j < k + 1 && out@[i]@.outer() == (#[trigger] sections@[j]).outer() by {
                    if i < before.len() {
                        assert(out@[i] == before[i]);
                        let j = choose|j: int|
                            0 <= j < k && before[i]@.outer() == (#[trigger] sections@[j]).outer();
                        assert(sections@[j].outer() == out@[i]@.outer());
                    } else {
                        assert(sections@[k as int].outer() == out@[i]@.outer());
                    }
                }
                assert forall|i: int, j: int| 0 <= i < j < out@.len() implies (
                #[trigger] out@[i])@.outer().end <= (#[trigger] out@[j])@.outer().start by {
                    assert(out@[i] == before[i]);
                    if j < before.len() {
                        assert(out@[j] == before[j]);
                    } else {
                        let m = choose|m: int|
                            0 <= m < k && before[i]@.outer() == (#[trigger] sections@[m]).outer();
                        assert(sections@[m].end_line.end < sections@[k as int].start_line.start);
                    }
                }
            },
        }
        k += 1;
    }
    proof {
        let list = fences_view(out@);
        assert forall|i: int| 0 <= i < outer_ranges(list).len() implies (#[trigger] outer_ranges(
            list,
        )[i]).fits(s.len()) by {
            assert(outer_ranges(list)[i] == out@[i]@.outer());
        }
        assert forall|i: int, j: int| 0 <= i < j < outer_ranges(list).len() implies (
        #[trigger] outer_ranges(list)[i]).end <= (#[trigger] outer_ranges(list)[j]).start by {
            assert(outer_ranges(list)[i] == out@[i]@.outer());
            assert(outer_ranges(list)[j] == out@[j]@.outer());
        }
    }
    Ok(out)
}

/// Once the configuration of a section was refused, the fault stays whatever
/// sections follow.
pub proof fn lemma_fences_fail(s: Seq<char>, sections: Seq<SectionSpan>, k: int, n: int)
    requires
        0 <= k <= n,
        fences_upto(s, sections, k) is Err,
    ensures
        fences_upto(s, sections, n) == fences_upto(s, sections, k),
    decreases n - k,
{
    if k < n {
        lemma_fences_fail(s, sections, k, n - 1);
    }
}

/// The fences of `document`, in the order in which they stand, or the error of
/// the first fence whose configuration was refused.
pub fn find_fences(document: &str) -> (r: Result<Vec<Fence>, FenceError>)
    ensures
        found_view(r) == fences(document@),
        r matches Ok(list) ==> in_order(outer_ranges(fences_view(list@)), document@.len()),
{
    let chars = chars_of(document);
    find_fences_in(&chars)
}

/// The source files that the fences name: the source of each fence that imports
/// documentation, in the order of the fences.
pub open spec fn sources_named(list: Seq<FenceModel>) -> Seq<Seq<char>> {
    list.filter(|f: FenceModel| f is RustDoc).map_values(|f: FenceModel| f->request.source)
}

/// The model of what looking for the sources of a document gave.
pub open spec fn sources_view(r: Result<Vec<String>, FenceError>) -> Result<
    Seq<Seq<char>>,
    FenceFault,
> {
    match r {
        Ok(paths) => Ok(crate::text::texts(paths@)),
        Err(e) => Err(e@),
    }
}

/// The source files that the fences of `list` name, in the order of the fences.
pub fn imported_sources(list: &Vec<Fence>) -> (r: Vec<String>)
    ensures
        crate::text::texts(r@) == sources_named(fences_view(list@)),
{
    let ghost all = fences_view(list@);
    let ghost imports = |f: FenceModel| f is RustDoc;
    let ghost source = |f: FenceModel| f->request.source;
    let mut out: Vec<String> = Vec::new();
    let mut k: usize = 0;
    assert(crate::text::texts(out@) =~= all.take(0).filter(imports).map_values(source)) by {
        broadcast use vstd::seq_lib::group_filter_ensures;

    }
    while k < list.len()
        invariant
            k <= list.len(),
            all == fences_view(list@),
            imports == |f: FenceModel| f is RustDoc,
            source == |f: FenceModel| f->request.source,
            crate::text::texts(out@) == all.take(k as int).filter(imports).map_values(source),
        decreases list.len() - k,
    {
        let ghost before = crate::text::texts(out@);
        let ghost kept = all.take(k as int).filter(imports);
        proof {
            assert(all[k as int] == list@[k as int]@);
            assert(all.take(k + 1) == all.take(k as int).push(all[k as int]));
            all.take(k as int).lemma_filter_push(all[k as int], imports);
        }
        match &list[k] {
            Fence::RustDoc(fence) => {
                out.push(fence.conf.source.clone());
                assert(crate::text::texts(out@) =~= before.push(fence.conf.source@));
                assert(kept.push(all[k as int]).map_values(source) =~= kept.map_values(source).push(
                    fence.conf.source@,
                ));
            },
            Fence::Toc(_) => {},
        }
        k += 1;
    }
    assert(all.take(list@.len() as int) == all);
    out
}

/// The source files that `document` names and that have to be read before its
/// fences can run, or the error of the first fence whose configuration was
/// refused.
pub fn required_sources(document: &str) -> (r: Result<Vec<String>, FenceError>)
    ensures
        sources_view(r) == match fences(document@) {
            Ok(list) => Ok(sources_named(list)),
            Err(e) => Err(e),
        },
{
    match find_fences(document) {
        Ok(list) => Ok(imported_sources(&list)),
        Err(e) => Err(e),
    }
}

} // verus!
