//! The table of contents fence.
//!
//! The fence is replaced by a bullet list of the document's headings. A heading is
//! a line outside the fenced sections that, without its trailing white space, begins
//! with `#`; its depth is the number of leading `#` less one, and its title is what
//! follows them, without leading white space.
use vstd::prelude::*;
use vstd::string::StringSliceAdditionalSpecFns;
use crate::config::{
    count_entry, count_of, entries_view, flag_entry, flag_of, parse_table, text_entry, text_of,
    toml_table, ConfigError, ConfigFault, ConfigItem, ConfigValue,
};
use crate::fence::{
    in_fenced_section, is_fence_span, open_fence, FenceError, FenceFault, SectionSpan,
};
use crate::text::{
    chars_of, ends_with, join, join_strings, lemma_line_spans, lemma_run_end, lines, push_str,
    repeat, run_end, run_end_from, skip_whitespace_from, splice, spliced, split_lines, string_from,
    string_of, sub_vec, trim_end, trim_start, trimmed_end, TextRange,
};

verus! {

/// What `str::to_lowercase` returns for a text.
pub uninterp spec fn lowercase(text: Seq<char>) -> Seq<char>;

/// `str::to_lowercase` returns the lower-case form of its argument, which depends
/// on the text alone.
#[verifier::external_body]
pub(crate) fn to_lowercase(text: &str) -> (r: String)
    ensures
        r@ == lowercase(text@),
{
    text.to_lowercase()
}

/// The digit that stands for `n` in upper-case hexadecimal.
pub open spec fn hex_digit(n: int) -> char {
    seq!['0', '1', '2', '3', '4', '5', '6', '7', '8', '9', 'A', 'B', 'C', 'D', 'E', 'F'][n]
}

/// How one byte is written in an anchor: a printable ASCII byte as itself, a
/// control byte, DEL or a byte above 127 as `%` and two hexadecimal digits.
pub open spec fn percent_encoded_byte(b: u8) -> Seq<char> {
    if 0x20 <= b < 0x7F {
        seq![b as char]
    } else {
        seq!['%', hex_digit(b as int / 16), hex_digit(b as int % 16)]
    }
}

/// The bytes written one after another, each as `percent_encoded_byte` says.
pub open spec fn percent_encoded(bytes: Seq<u8>) -> Seq<char> {
    bytes.map_values(|b: u8| percent_encoded_byte(b)).flatten()
}

/// `percent_encoding::percent_encode` with the set `CONTROLS`, applied to the
/// UTF-8 bytes of `text`: bytes below `0x20`, the byte `0x7F` and bytes above it
/// come out as `%XX` with upper-case digits, all others unchanged.
#[verifier::external_body]
pub(crate) fn percent_encode_controls(text: &str) -> (r: String)
    ensures
        r@ == percent_encoded(text.spec_bytes()),
{
    percent_encoding::percent_encode(text.as_bytes(), percent_encoding::CONTROLS).to_string()
}

/// `text` with every space replaced by a hyphen.
pub open spec fn hyphenated(text: Seq<char>) -> Seq<char> {
    text.map_values(|c: char| if c == ' ' { '-' } else { c })
}

/// The anchor of a title whose lower-case form is `lowered`.
pub open spec fn anchor_of_lowercase(lowered: Seq<char>) -> Seq<char> {
    percent_encoded(vstd::utf8::encode_utf8(lowered))
}

/// The anchor by which a heading with this title is linked: spaces become
/// hyphens, the result is put in lower case, and what is no printable ASCII is
/// percent-encoded.
pub open spec fn slug(title: Seq<char>) -> Seq<char> {
    anchor_of_lowercase(lowercase(hyphenated(title)))
}

/// The anchor of a title depends on the title only through the lower-case form of
/// the hyphenated title: two titles for which that form is the same have the
/// same anchor.
pub proof fn lemma_slug_of_lowercase_form(a: Seq<char>, b: Seq<char>)
    requires
        lowercase(hyphenated(a)) == lowercase(hyphenated(b)),
    ensures
        slug(a) == slug(b),
{
}

/// `text` with every space replaced by a hyphen.
pub fn hyphenate(text: &str) -> (r: String)
    ensures
        r@ == hyphenated(text@),
{
    let chars = chars_of(text);
    let mut out: Vec<char> = Vec::new();
    let mut i: usize = 0;
    while i < chars.len()
        invariant
            i <= chars.len(),
            chars@ == text@,
            out@ == hyphenated(chars@.take(i as int)),
        decreases chars.len() - i,
    {
        let c = chars[i];
        out.push(if c == ' ' { '-' } else { c });
        i += 1;
        assert(out@ =~= hyphenated(chars@.take(i as int)));
    }
    assert(chars@.take(chars@.len() as int) == chars@);
    string_from(&out)
}

/// The anchor of a title, given the lower-case form of the hyphenated title.
pub fn anchor_from_lowercase(lowered: &str) -> (r: String)
    ensures
        r@ == anchor_of_lowercase(lowered@),
{
    percent_encode_controls(lowered)
}

/// The anchor by which a heading with the title `text` is linked.
pub fn slugify(text: &str) -> (r: String)
    ensures
        r@ == slug(text@),
{
    let hyphens = hyphenate(text);
    let lowered = to_lowercase(hyphens.as_str());
    anchor_from_lowercase(lowered.as_str())
}

/// How a table of contents is laid out.
pub struct TocConfig {
    /// The glyph that begins each entry.
    pub bullet: String,
    /// The number of spaces by which each level is indented.
    pub indent: usize,
    /// The deepest headings that are listed, or `None` for no limit.
    pub max_depth: Option<usize>,
    /// The shallowest headings that are listed.
    pub min_depth: usize,
    /// A line that stands above the list, followed by an empty line.
    pub header: Option<String>,
    /// Whether each entry links to its heading.
    pub link: bool,
}

/// The model of a `TocConfig`.
pub struct TocLayout {
    pub bullet: Seq<char>,
    pub indent: nat,
    pub max_depth: Option<nat>,
    pub min_depth: nat,
    pub header: Option<Seq<char>>,
    pub link: bool,
}

impl View for TocConfig {
    type V = TocLayout;

    open spec fn view(&self) -> TocLayout {
        TocLayout {
            bullet: self.bullet@,
            indent: self.indent as nat,
            max_depth: match self.max_depth {
                Some(d) => Some(d as nat),
                None => None,
            },
            min_depth: self.min_depth as nat,
            header: match self.header {
                Some(h) => Some(h@),
                None => None,
            },
            link: self.link,
        }
    }
}

impl TocLayout {
    /// Whether headings of this depth are listed.
    pub open spec fn lists(self, depth: nat) -> bool {
        &&& self.min_depth <= depth
        &&& self.max_depth matches Some(max) ==> depth <= max
    }
}

/// The layout that a configuration table asks for. A key that is absent has its
/// default: the bullet `-`, an indentation of 4, no greatest depth, the least
/// depth 0, no header, and links. Keys that the layout does not know are passed
/// over. The keys are read in the order bullet, indent, max_depth, min_depth,
/// header, link, and the first value of a wrong kind is the fault.
pub open spec fn toc_layout(entries: Seq<(Seq<char>, ConfigItem)>) -> Result<TocLayout, ConfigFault> {
    match text_of(entries, "bullet"@) {
        Err(e) => Err(e),
        Ok(bullet) => match count_of(entries, "indent"@) {
            Err(e) => Err(e),
            Ok(indent) => match count_of(entries, "max_depth"@) {
                Err(e) => Err(e),
                Ok(max_depth) => match count_of(entries, "min_depth"@) {
                    Err(e) => Err(e),
                    Ok(min_depth) => match text_of(entries, "header"@) {
                        Err(e) => Err(e),
                        Ok(header) => match flag_of(entries, "link"@) {
                            Err(e) => Err(e),
                            Ok(link) => Ok(
                                TocLayout {
                                    bullet: match bullet {
                                        Some(b) => b,
                                        None => seq!['-'],
                                    },
                                    indent: match indent {
                                        Some(n) => n,
                                        None => 4,
                                    },
                                    max_depth,
                                    min_depth: match min_depth {
                                        Some(n) => n,
                                        None => 0,
                                    },
                                    header,
                                    link: match link {
                                        Some(b) => b,
                                        None => true,
                                    },
                                },
                            ),
                        },
                    },
                },
            },
        },
    }
}

/// The layout that a configuration text asks for.
pub open spec fn toc_layout_of(text: Seq<char>) -> Result<TocLayout, ConfigFault> {
    match toml_table(text) {
        Ok(entries) => toc_layout(entries),
        Err(message) => Err(ConfigFault::Syntax(message)),
    }
}

/// The model of a configuration that was read.
pub open spec fn layout_view(r: Result<TocConfig, ConfigError>) -> Result<TocLayout, ConfigFault> {
    match r {
        Ok(config) => Ok(config@),
        Err(e) => Err(e@),
    }
}

impl TocConfig {
    /// The layout that a configuration table asks for.
    pub fn from_entries(entries: &Vec<(String, ConfigValue)>) -> (r: Result<TocConfig, ConfigError>)
        ensures
            layout_view(r) == toc_layout(entries_view(entries@)),
    {
        let bullet = match text_entry(entries, "bullet") {
            Ok(Some(b)) => b,
            Ok(None) => default_bullet(),
            Err(e) => {
                return Err(e);
            },
        };
        let indent = match count_entry(entries, "indent") {
            Ok(Some(n)) => n,
            Ok(None) => default_inline(),
            Err(e) => {
                return Err(e);
            },
        };
        let max_depth = match count_entry(entries, "max_depth") {
            Ok(d) => d,
            Err(e) => {
                return Err(e);
            },
        };
        let min_depth = match count_entry(entries, "min_depth") {
            Ok(Some(n)) => n,
            Ok(None) => 0,
            Err(e) => {
                return Err(e);
            },
        };
        let header = match text_entry(entries, "header") {
            Ok(h) => h,
            Err(e) => {
                return Err(e);
            },
        };
        let link = match flag_entry(entries, "link") {
            Ok(Some(b)) => b,
            Ok(None) => default_link(),
            Err(e) => {
                return Err(e);
            },
        };
        Ok(TocConfig { bullet, indent, max_depth, min_depth, header, link })
    }

    /// The layout that a configuration text asks for.
    pub fn from_toml(text: &str) -> (r: Result<TocConfig, ConfigError>)
        ensures
            layout_view(r) == toc_layout_of(text@),
    {
        match parse_table(text) {
            Ok(entries) => TocConfig::from_entries(&entries),
            Err(message) => Err(ConfigError::Syntax(message)),
        }
    }
}

/// Whether entries link to their headings unless the configuration says otherwise.
pub fn default_link() -> (r: bool)
    ensures
        r,
{
    true
}

/// The indentation per level unless the configuration says otherwise.
pub fn default_inline() -> (r: usize)
    ensures
        r == 4,
{
    4
}

/// The bullet glyph unless the configuration says otherwise.
pub fn default_bullet() -> (r: String)
    ensures
        r@ == seq!['-'],
{
    proof {
        reveal_strlit("-");
    }
    let r = "-".to_string();
    assert(r@ =~= seq!['-']);
    r
}

/// A heading of a document.
pub struct Heading {
    /// The number of leading `#` less one.
    pub depth: usize,
    /// The text after the leading `#`, trimmed.
    pub title: String,
}

/// The model of a `Heading`.
pub struct HeadingModel {
    pub depth: nat,
    pub title: Seq<char>,
}

impl View for Heading {
    type V = HeadingModel;

    open spec fn view(&self) -> HeadingModel {
        HeadingModel { depth: self.depth as nat, title: self.title@ }
    }
}

/// Whether a line is a heading: without its trailing white space it begins with
/// `#`.
pub open spec fn is_heading_line(line: Seq<char>) -> bool {
    trim_end(line).len() > 0 && trim_end(line)[0] == '#'
}

/// The heading that a heading line holds.
pub open spec fn heading_of(line: Seq<char>) -> HeadingModel {
    let trimmed = trim_end(line);
    let markers = run_end(trimmed, '#', 0);
    HeadingModel {
        depth: (markers - 1) as nat,
        title: trim_start(trimmed.subrange(markers, trimmed.len() as int)),
    }
}

/// The headings among the first `k` lines: the heading lines that belong to no
/// fenced section, in order.
pub open spec fn headings_upto(lines: Seq<Seq<char>>, k: int) -> Seq<HeadingModel>
    decreases k,
{
    if k <= 0 {
        Seq::empty()
    } else {
        let before = headings_upto(lines, k - 1);
        if !in_fenced_section(lines, k - 1) && is_heading_line(lines[k - 1]) {
            before.push(heading_of(lines[k - 1]))
        } else {
            before
        }
    }
}

/// The headings of a document, in order.
pub open spec fn headings(content: Seq<char>) -> Seq<HeadingModel> {
    headings_upto(lines(content), lines(content).len() as int)
}

/// The entry of a heading in the table of contents, given the heading's anchor:
/// the indentation of its level, the bullet, a space, and the title, which is a
/// link to the anchor if the layout asks for links.
pub open spec fn entry_with_anchor(heading: HeadingModel, layout: TocLayout, anchor: Seq<char>) -> Seq<
    char,
> {
    repeat(' ', layout.indent * ((heading.depth - layout.min_depth) as nat)) + layout.bullet
        + seq![' '] + if layout.link {
        seq!['['] + heading.title + seq![']', '(', '#'] + anchor + seq![')']
    } else {
        heading.title
    }
}

/// The entry of a heading in the table of contents.
pub open spec fn entry(heading: HeadingModel, layout: TocLayout) -> Seq<char> {
    entry_with_anchor(heading, layout, slug(heading.title))
}

/// The entries of the table of contents: one for each heading that the layout
/// lists, in the order of the headings.
pub open spec fn entries(headings: Seq<HeadingModel>, layout: TocLayout) -> Seq<Seq<char>> {
    headings.filter(|h: HeadingModel| layout.lists(h.depth)).map_values(
        |h: HeadingModel| entry(h, layout),
    )
}

/// The table of contents: the header line and an empty line, if the layout has a
/// header, then the entries, one per line.
pub open spec fn table_of_contents(headings: Seq<HeadingModel>, layout: TocLayout) -> Seq<char> {
    let list = join(entries(headings, layout), seq!['\n']);
    match layout.header {
        Some(header) => header + seq!['\n', '\n'] + list,
        None => list,
    }
}

/// A heading is listed exactly if its depth lies between the least and the
/// greatest depth of the layout, and the table holds the entries of the listed
/// headings and nothing else.
pub proof fn lemma_listed_headings(headings: Seq<HeadingModel>, layout: TocLayout)
    ensures
        forall|i: int|
            0 <= i < headings.len() ==> (entries(headings, layout).contains(
                entry(#[trigger] headings[i], layout),
            ) <== layout.lists(headings[i].depth)),
        forall|line: Seq<char>| #[trigger]
            entries(headings, layout).contains(line) ==> exists|i: int|
                0 <= i < headings.len() && layout.lists(headings[i].depth) && line == entry(
                    #[trigger] headings[i],
                    layout,
                ),
{
    let listed = |h: HeadingModel| layout.lists(h.depth);
    let kept = headings.filter(listed);
    let all = entries(headings, layout);
    broadcast use vstd::seq_lib::group_filter_ensures;

    assert forall|i: int| 0 <= i < headings.len() && layout.lists(
        headings[i].depth,
    ) implies all.contains(entry(#[trigger] headings[i], layout)) by {
        assert(listed(headings[i]));
        assert(kept.contains(headings[i]));
        let j = choose|j: int| 0 <= j < kept.len() && kept[j] == headings[i];
        assert(all[j] == entry(headings[i], layout));
    }
    assert forall|line: Seq<char>| #[trigger] all.contains(line) implies exists|i: int|
        0 <= i < headings.len() && layout.lists(headings[i].depth) && line == entry(
            #[trigger] headings[i],
            layout,
        ) by {
        let j = choose|j: int| 0 <= j < all.len() && all[j] == line;
        assert(listed(kept[j]));
        assert(kept.contains(kept[j]));
        headings.lemma_filter_contains_rev(listed, kept[j]);
        let i = choose|i: int| 0 <= i < headings.len() && headings[i] == kept[j];
        assert(line == entry(headings[i], layout));
    }
}

impl Heading {
    /// Reads a heading from a line. `Err` means that the line is no heading.
    pub fn from_str(s: &str) -> (r: Result<Heading, ()>)
        ensures
            r is Ok <==> is_heading_line(s@),
            r matches Ok(heading) ==> heading@ == heading_of(s@),
    {
        let chars = chars_of(s);
        let end = trimmed_end(&chars, chars.len());
        assert(chars@.take(chars@.len() as int) == chars@);
        let trimmed = sub_vec(&chars, 0, end);
        assert(trimmed@ == trim_end(s@));
        if trimmed.len() == 0 || trimmed[0] != '#' {
            return Err(());
        }
        let markers = run_end_from(&trimmed, '#', 0);
        assert(markers >= 1) by {
            assert(run_end(trimmed@, '#', 0) == run_end(trimmed@, '#', 1));
            lemma_run_end(trimmed@, '#', 1);
        }
        let rest = sub_vec(&trimmed, markers, trimmed.len());
        let start = skip_whitespace_from(&rest, 0);
        let title_chars = sub_vec(&rest, start, rest.len());
        let title = string_from(&title_chars);
        Ok(Heading { depth: markers - 1, title })
    }

    /// The entry of this heading in a table of contents, given the heading's
    /// anchor, or `None` if the layout does not list headings of this depth.
    pub fn format_with_anchor(&self, config: &TocConfig, anchor: &str) -> (r: Option<String>)
        ensures
            r is Some <==> config@.lists(self@.depth),
            r matches Some(line) ==> line@ == entry_with_anchor(self@, config@, anchor@),
    {
        let listed = self.depth >= config.min_depth && match config.max_depth {
            Some(max) => self.depth <= max,
            None => true,
        };
        if !listed {
            return None;
        }
        let levels: usize = self.depth - config.min_depth;
        let mut out: Vec<char> = Vec::new();
        let mut level: usize = 0;
        while level < levels
            invariant
                level <= levels,
                out@ == repeat(' ', config.indent as nat * level as nat),
            decreases levels - level,
        {
            let mut i: usize = 0;
            while i < config.indent
                invariant
                    i <= config.indent,
                    out@ == repeat(' ', config.indent as nat * level as nat + i as nat),
                decreases config.indent - i,
            {
                out.push(' ');
                i += 1;
                assert(out@ =~= repeat(' ', config.indent as nat * level as nat + i as nat));
            }
            level += 1;
            assert(config.indent as nat * (level - 1) as nat + config.indent as nat
                == config.indent as nat * level as nat) by (nonlinear_arith)
                requires
                    level >= 1,
            ;
        }
        push_str(&mut out, config.bullet.as_str());
        out.push(' ');
        if config.link {
            out.push('[');
            push_str(&mut out, self.title.as_str());
            out.push(']');
            out.push('(');
            out.push('#');
            push_str(&mut out, anchor);
            out.push(')');
        } else {
            push_str(&mut out, self.title.as_str());
        }
        let line = string_from(&out);
        assert(line@ =~= entry_with_anchor(self@, config@, anchor@));
        Some(line)
    }

    /// The entry of this heading in a table of contents, or `None` if the layout
    /// does not list headings of this depth.
    pub fn format(&self, config: &TocConfig) -> (r: Option<String>)
        ensures
            r is Some <==> config@.lists(self@.depth),
            r matches Some(line) ==> line@ == entry(self@, config@),
    {
        let anchor = slugify(self.title.as_str());
        self.format_with_anchor(config, anchor.as_str())
    }
}

/// The headings of `content`: its heading lines outside the fenced sections, in
/// order.
pub fn find_headings(content: &str) -> (r: Vec<Heading>)
    ensures
        r@.map_values(|h: Heading| h@) == headings(content@),
{
    let chars = chars_of(content);
    let spans = split_lines(&chars);
    let ghost ls = lines(content@);
    proof {
        assert(chars@.len() == chars.len());
        lemma_line_spans(chars@, 0);
    }
    let mut out: Vec<Heading> = Vec::new();
    let mut in_fence = false;
    let mut k: usize = 0;
    while k < spans.len()
        invariant
            k <= spans.len(),
            chars@ == content@,
            ls == lines(content@),
            spans@ == crate::text::line_spans(content@),
            ls.len() == spans@.len(),
            forall|i: int| 0 <= i < spans@.len() ==> (#[trigger] spans@[i]).fits(chars@.len()),
            in_fence == open_fence(ls, k as int) is Some,
            out@.map_values(|h: Heading| h@) == headings_upto(ls, k as int),
        decreases spans.len() - k,
    {
        let span = spans[k];
        assert(ls[k as int] == span.of(chars@));
        let was_inside = in_fence;
        if is_fence_span(&chars, span) {
            in_fence = !in_fence;
        }
        if !(was_inside || in_fence) {
            let line = crate::text::string_of(&chars, span.start, span.end);
            match Heading::from_str(line.as_str()) {
                Ok(heading) => {
                    let ghost before = out@;
                    out.push(heading);
                    assert(out@.map_values(|h: Heading| h@) =~= before.map_values(
                        |h: Heading| h@,
                    ).push(heading@));
                },
                Err(_) => {},
            }
        }
        k += 1;
    }
    out
}

/// Whether a name in lower case is one of a table of contents fence: it ends with
/// `toc` or with `table-of-contents`.
pub open spec fn is_toc_name(lowered: Seq<char>) -> bool {
    "toc"@.is_suffix_of(lowered) || "table-of-contents"@.is_suffix_of(lowered)
}

/// A fence that is replaced by a table of contents.
pub struct TocFence {
    /// The layout of the table.
    pub conf: TocConfig,
    /// The range of the fence in the document in which it was found, both fence
    /// lines included.
    pub outer: TextRange,
}

impl TocFence {
    /// Whether a name, given in lower case, is one of a table of contents fence.
    pub fn matches_lowercase(lowered: &str) -> (r: bool)
        ensures
            r == is_toc_name(lowered@),
    {
        let name = chars_of(lowered);
        let short = chars_of("toc");
        let long = chars_of("table-of-contents");
        ends_with(&name, &short) || ends_with(&name, &long)
    }

    /// Whether the opening line of a fence names a table of contents: in lower
    /// case it ends with `toc` or with `table-of-contents`.
    pub fn is_match(name: &str) -> (r: bool)
        ensures
            r == is_toc_name(lowercase(name@)),
    {
        let lowered = to_lowercase(name);
        TocFence::matches_lowercase(lowered.as_str())
    }

    /// The rank in which the fence is run: after every fence of a lower rank.
    pub fn priority(&self) -> (r: u8)
        ensures
            r == 10,
    {
        10
    }

    /// The fence of the section `section` of `document`, whose configuration is
    /// what stands between the fence lines.
    pub fn create(document: &Vec<char>, section: SectionSpan) -> (r: Result<TocFence, FenceError>)
        requires
            section.fits(document@.len()),
        ensures
            match r {
                Ok(fence) => toc_layout_of(section.inner().of(document@)) == Ok::<_, ConfigFault>(
                    fence.conf@,
                ) && fence.outer == section.outer(),
                Err(e) => toc_layout_of(section.inner().of(document@)) matches Err(cause) && e@
                    == (FenceFault::Config {
                    at: section.start_line.start as nat,
                    name: section.start_line.of(document@),
                    cause,
                }),
            },
    {
        let inner = section.inner_range();
        let body = string_of(document, inner.start, inner.end);
        match TocConfig::from_toml(body.as_str()) {
            Ok(conf) => Ok(TocFence { conf, outer: section.outer_range() }),
            Err(cause) => Err(
                FenceError::Config {
                    at: section.start_line.start,
                    name: string_of(document, section.start_line.start, section.start_line.end),
                    cause,
                },
            ),
        }
    }

    /// The table of contents of `document` in the layout of this fence.
    pub fn render(&self, document: &str) -> (r: String)
        ensures
            r@ == table_of_contents(headings(document@), self.conf@),
    {
        let found = find_headings(document);
        let ghost all = found@.map_values(|h: Heading| h@);
        let ghost layout = self.conf@;
        let ghost listed = |h: HeadingModel| layout.lists(h.depth);
        let mut list: Vec<String> = Vec::new();
        let mut k: usize = 0;
        while k < found.len()
            invariant
                k <= found.len(),
                all == found@.map_values(|h: Heading| h@),
                layout == self.conf@,
                listed == |h: HeadingModel| layout.lists(h.depth),
                crate::text::texts(list@) == entries(all.take(k as int), layout),
            decreases found.len() - k,
        {
            let ghost before = crate::text::texts(list@);
            proof {
                assert(all.take(k + 1) == all.take(k as int).push(all[k as int]));
                all.take(k as int).lemma_filter_push(all[k as int], listed);
            }
            match found[k].format(&self.conf) {
                Some(line) => {
                    list.push(line);
                    assert(crate::text::texts(list@) =~= before.push(line@));
                    assert(entries(all.take(k + 1), layout) =~= entries(
                        all.take(k as int),
                        layout,
                    ).push(entry(all[k as int], layout)));
                },
                None => {},
            }
            k += 1;
        }
        assert(all.take(found@.len() as int) == all);
        let body = join_strings(&list, "\n");
        let mut out: Vec<char> = Vec::new();
        proof {
            reveal_strlit("\n");
            reveal_strlit("\n\n");
            assert("\n"@ =~= seq!['\n']);
            assert("\n\n"@ =~= seq!['\n', '\n']);
        }
        match &self.conf.header {
            Some(header) => {
                push_str(&mut out, header.as_str());
                push_str(&mut out, "\n\n");
            },
            None => {},
        }
        push_str(&mut out, body.as_str());
        string_from(&out)
    }

    /// Replaces the fence in `document` by the table of contents of `document`.
    pub fn run(&self, document: &mut String) -> (r: Result<(), FenceError>)
        requires
            self.outer.fits(old(document)@.len()),
        ensures
            r is Ok,
            final(document)@ == spliced(
                old(document)@,
                self.outer,
                table_of_contents(headings(old(document)@), self.conf@),
            ),
    {
        let table = self.render(document.as_str());
        splice(document, self.outer, table.as_str());
        Ok(())
    }
}

/// The headings of a document are its heading lines outside the fenced sections:
/// a line inside a fenced section gives no heading, however much it looks like
/// one, and every heading line outside of them gives one.
pub proof fn lemma_headings_stand_outside_fences(lines: Seq<Seq<char>>, k: int)
    requires
        0 <= k <= lines.len(),
    ensures
        forall|h: HeadingModel| #[trigger]
            headings_upto(lines, k).contains(h) ==> exists|i: int|
                0 <= i < k && !in_fenced_section(lines, i) && is_heading_line(lines[i]) && h
                    == heading_of(#[trigger] lines[i]),
        forall|i: int|
            0 <= i < k && !in_fenced_section(lines, i) && is_heading_line(lines[i])
                ==> headings_upto(lines, k).contains(heading_of(#[trigger] lines[i])),
    decreases k,
{
    if k > 0 {
        lemma_headings_stand_outside_fences(lines, k - 1);
        let before = headings_upto(lines, k - 1);
        let now = headings_upto(lines, k);
        let added = !in_fenced_section(lines, k - 1) && is_heading_line(lines[k - 1]);
        assert forall|h: HeadingModel| #[trigger] now.contains(h) implies exists|i: int|
            0 <= i < k && !in_fenced_section(lines, i) && is_heading_line(lines[i]) && h
                == heading_of(#[trigger] lines[i]) by {
            let p = choose|p: int| 0 <= p < now.len() && now[p] == h;
            if added && p == now.len() - 1 {
                assert(h == heading_of(lines[k - 1]));
            } else {
                assert(before[p] == h);
                assert(before.contains(h));
            }
        }
        assert forall|i: int|
            0 <= i < k && !in_fenced_section(lines, i) && is_heading_line(
                lines[i],
            ) implies now.contains(heading_of(#[trigger] lines[i])) by {
            if i == k - 1 {
                assert(now[now.len() - 1] == heading_of(lines[i]));
            } else {
                assert(before.contains(heading_of(lines[i])));
                let p = choose|p: int| 0 <= p < before.len() && before[p] == heading_of(lines[i]);
                assert(now[p] == heading_of(lines[i]));
            }
        }
    }
}

} // verus!
