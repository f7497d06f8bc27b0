//! Character-level text model shared by the whole crate.
//!
//! Text is modelled as `Seq<char>`. Executable code works on `Vec<char>`, where a
//! position is an index of a character, and converts from and to `String` at its
//! edges.
use vstd::prelude::*;

verus! {

/// `String::push` appends the character to the end of the string.
pub assume_specification[ String::push ](s: &mut String, c: char)
    ensures
        final(s)@ == old(s)@.push(c),
;

/// A half-open range `start..end` of character positions in a text.
#[derive(Clone, Copy, Debug, PartialEq, Eq, Structural)]
pub struct TextRange {
    pub start: usize,
    pub end: usize,
}

impl TextRange {
    /// The range lies inside a text of `len` characters.
    pub open spec fn fits(self, len: nat) -> bool {
        self.start <= self.end <= len
    }

    /// The characters of `s` that the range covers.
    pub open spec fn of(self, s: Seq<char>) -> Seq<char> {
        s.subrange(self.start as int, self.end as int)
    }
}

/// The characters that count as white space: those with the Unicode property
/// `White_Space`.
pub open spec fn is_whitespace(c: char) -> bool {
    let u = c as u32;
    ||| 0x09 <= u <= 0x0D
    ||| u == 0x20
    ||| u == 0x85
    ||| u == 0xA0
    ||| u == 0x1680
    ||| 0x2000 <= u <= 0x200A
    ||| u == 0x2028
    ||| u == 0x2029
    ||| u == 0x202F
    ||| u == 0x205F
    ||| u == 0x3000
}

/// The first position at or after `i` that holds no white space, or the length of
/// `s` if there is none.
pub open spec fn skip_whitespace(s: Seq<char>, i: int) -> int
    decreases s.len() - i,
{
    if 0 <= i < s.len() && is_whitespace(s[i]) {
        skip_whitespace(s, i + 1)
    } else {
        i
    }
}

/// The first position at or after `i` that does not hold `c`, or the length of `s`
/// if there is none.
pub open spec fn run_end(s: Seq<char>, c: char, i: int) -> int
    decreases s.len() - i,
{
    if 0 <= i < s.len() && s[i] == c {
        run_end(s, c, i + 1)
    } else {
        i
    }
}

/// The length of `s` without its trailing white space.
pub open spec fn trimmed_len(s: Seq<char>) -> int
    decreases s.len(),
{
    if s.len() > 0 && is_whitespace(s.last()) {
        trimmed_len(s.drop_last())
    } else {
        s.len() as int
    }
}

/// `s` without its leading white space.
pub open spec fn trim_start(s: Seq<char>) -> Seq<char> {
    s.subrange(skip_whitespace(s, 0), s.len() as int)
}

/// `s` without its trailing white space.
pub open spec fn trim_end(s: Seq<char>) -> Seq<char> {
    s.subrange(0, trimmed_len(s))
}

/// `s` without its leading and trailing white space.
pub open spec fn trim(s: Seq<char>) -> Seq<char> {
    trim_start(trim_end(s))
}

/// The position of the first `c` at or after `i`, or the length of `s` if there is
/// none.
pub open spec fn find_char(s: Seq<char>, c: char, i: int) -> int
    decreases s.len() - i,
{
    if i >= s.len() {
        s.len() as int
    } else if i >= 0 && s[i] == c {
        i
    } else {
        find_char(s, c, i + 1)
    }
}

/// The position of the first line feed at or after `i`, or the length of `s` if
/// there is none.
pub open spec fn line_end(s: Seq<char>, i: int) -> int {
    find_char(s, '\n', i)
}

/// The stretches of `s` from position `i` on that `sep` separates, as ranges.
pub open spec fn split_spans_from(s: Seq<char>, sep: char, i: int) -> Seq<TextRange>
    decreases s.len() - i,
{
    if 0 <= i <= s.len() {
        let e = find_char(s, sep, i);
        proof {
            lemma_find_char(s, sep, i);
        }
        let first = seq![TextRange { start: i as usize, end: e as usize }];
        if e < s.len() {
            first + split_spans_from(s, sep, e + 1)
        } else {
            first
        }
    } else {
        Seq::empty()
    }
}

/// The stretches of `s` that `sep` separates, as ranges: one more than `s` holds
/// separators, empty ones included.
pub open spec fn split_spans(s: Seq<char>, sep: char) -> Seq<TextRange> {
    split_spans_from(s, sep, 0)
}

/// The stretches of `s` that `sep` separates, as texts.
pub open spec fn split_on(s: Seq<char>, sep: char) -> Seq<Seq<char>> {
    split_spans(s, sep).map_values(|r: TextRange| r.of(s))
}

/// Where the content of the line `start..end` stops: before the line feed at
/// `end`, and before a carriage return that directly precedes that line feed.
pub open spec fn content_end(s: Seq<char>, start: int, end: int) -> int {
    if end < s.len() && start < end && s[end - 1] == '\r' {
        end - 1
    } else {
        end
    }
}

/// The lines of `s` from position `i` on, each without its line ending.
///
/// A line ends at a line feed, which may follow a carriage return, or at the end
/// of the text; a text that ends in a line feed has no empty last line.
pub open spec fn line_spans_from(s: Seq<char>, i: int) -> Seq<TextRange>
    decreases s.len() - i,
{
    if 0 <= i < s.len() {
        let e = line_end(s, i);
        proof {
            lemma_line_end(s, i);
        }
        let first = seq![TextRange { start: i as usize, end: content_end(s, i, e) as usize }];
        if e < s.len() {
            first + line_spans_from(s, e + 1)
        } else {
            first
        }
    } else {
        Seq::empty()
    }
}

/// The lines of `s`, as ranges of positions.
pub open spec fn line_spans(s: Seq<char>) -> Seq<TextRange> {
    line_spans_from(s, 0)
}

/// The lines of `s`, as texts.
pub open spec fn lines(s: Seq<char>) -> Seq<Seq<char>> {
    line_spans(s).map_values(|r: TextRange| r.of(s))
}

/// `parts` written one after another with `sep` between neighbours.
pub open spec fn join(parts: Seq<Seq<char>>, sep: Seq<char>) -> Seq<char>
    decreases parts.len(),
{
    if parts.len() == 0 {
        Seq::empty()
    } else if parts.len() == 1 {
        parts[0]
    } else {
        join(parts.drop_last(), sep) + sep + parts.last()
    }
}

/// `n` copies of `c`.
pub open spec fn repeat(c: char, n: nat) -> Seq<char> {
    Seq::new(n, |i: int| c)
}

/// `run_end` does not move backwards and stays inside the text.
pub proof fn lemma_run_end(s: Seq<char>, c: char, i: int)
    requires
        0 <= i <= s.len(),
    ensures
        i <= run_end(s, c, i) <= s.len(),
    decreases s.len() - i,
{
    if i < s.len() && s[i] == c {
        lemma_run_end(s, c, i + 1);
    }
}

/// `find_char` stays between its start and the end of the text, stops at a `c`,
/// and passes none.
pub proof fn lemma_find_char(s: Seq<char>, c: char, i: int)
    requires
        0 <= i <= s.len(),
    ensures
        i <= find_char(s, c, i) <= s.len(),
        find_char(s, c, i) < s.len() ==> s[find_char(s, c, i)] == c,
        forall|k: int| i <= k < find_char(s, c, i) ==> s[k] != c,
    decreases s.len() - i,
{
    if i < s.len() && s[i] != c {
        lemma_find_char(s, c, i + 1);
    }
}

/// `line_end` stays between its start and the end of the text, stops at a line
/// feed, and passes none.
pub proof fn lemma_line_end(s: Seq<char>, i: int)
    requires
        0 <= i <= s.len(),
    ensures
        i <= line_end(s, i) <= s.len(),
        line_end(s, i) < s.len() ==> s[line_end(s, i)] == '\n',
        forall|k: int| i <= k < line_end(s, i) ==> s[k] != '\n',
{
    lemma_find_char(s, '\n', i);
}

/// Every stretch lies inside the text and holds no separator.
pub proof fn lemma_split_spans(s: Seq<char>, sep: char, i: int)
    requires
        0 <= i <= s.len(),
        s.len() <= usize::MAX,
    ensures
        split_spans_from(s, sep, i).len() >= 1,
        forall|k: int|
            0 <= k < split_spans_from(s, sep, i).len() ==> {
                let r = #[trigger] split_spans_from(s, sep, i)[k];
                &&& i <= r.start <= r.end <= s.len()
                &&& forall|j: int| r.start <= j < r.end ==> s[j] != sep
            },
    decreases s.len() - i,
{
    lemma_find_char(s, sep, i);
    let e = find_char(s, sep, i);
    if e < s.len() {
        lemma_split_spans(s, sep, e + 1);
        let rest = split_spans_from(s, sep, e + 1);
        let all = split_spans_from(s, sep, i);
        assert forall|k: int| 0 <= k < all.len() implies {
            let r = #[trigger] all[k];
            &&& i <= r.start <= r.end <= s.len()
            &&& forall|j: int| r.start <= j < r.end ==> s[j] != sep
        } by {
            if k > 0 {
                assert(all[k] == rest[k - 1]);
            }
        }
    }
}

/// Every line lies inside the text, lines come in order, and none holds a line
/// feed.
pub proof fn lemma_line_spans(s: Seq<char>, i: int)
    requires
        0 <= i,
        s.len() <= usize::MAX,
    ensures
        forall|k: int|
            0 <= k < line_spans_from(s, i).len() ==> {
                let r = #[trigger] line_spans_from(s, i)[k];
                &&& i <= r.start <= r.end <= s.len()
                &&& forall|j: int| r.start <= j < r.end ==> s[j] != '\n'
            },
        forall|k: int, l: int|
            0 <= k < l < line_spans_from(s, i).len() ==> (#[trigger] line_spans_from(s, i)[k]).end
                < (#[trigger] line_spans_from(s, i)[l]).start,
    decreases s.len() - i,
{
    if i < s.len() {
        lemma_line_end(s, i);
        let e = line_end(s, i);
        if e < s.len() {
            lemma_line_spans(s, e + 1);
        }
        let rest = line_spans_from(s, e + 1);
        let all = line_spans_from(s, i);
        assert forall|k: int| 0 <= k < all.len() implies {
            let r = #[trigger] all[k];
            &&& i <= r.start <= r.end <= s.len()
            &&& forall|j: int| r.start <= j < r.end ==> s[j] != '\n'
        } by {
            if k > 0 {
                assert(all[k] == rest[k - 1]);
            }
        }
        assert forall|k: int, l: int| 0 <= k < l < all.len() implies (#[trigger] all[k]).end < (
        #[trigger] all[l]).start by {
            assert(all[l] == rest[l - 1]);
            if k > 0 {
                assert(all[k] == rest[k - 1]);
            }
        }
    }
}

/// Whether `c` is white space.
pub fn is_whitespace_char(c: char) -> (r: bool)
    ensures
        r == is_whitespace(c),
{
    let u: u32 = c as u32;
    (0x09 <= u && u <= 0x0D) || u == 0x20 || u == 0x85 || u == 0xA0 || u == 0x1680 || (0x2000 <= u
        && u <= 0x200A) || u == 0x2028 || u == 0x2029 || u == 0x202F || u == 0x205F || u == 0x3000
}

/// The characters of `s`, in order.
pub fn chars_of(s: &str) -> (r: Vec<char>)
    ensures
        r@ == s@,
{
    let mut out: Vec<char> = Vec::new();
    for c in it: s.chars()
        invariant
            out@ == it.seq().take(it.index()),
            it.seq() == s@,
    {
        out.push(c);
    }
    out
}

/// The string made of the characters `chars[from..to]`.
pub fn string_of(chars: &Vec<char>, from: usize, to: usize) -> (r: String)
    requires
        from <= to <= chars.len(),
    ensures
        r@ == chars@.subrange(from as int, to as int),
{
    let mut out = String::new();
    let mut i: usize = from;
    while i < to
        invariant
            from <= i <= to <= chars.len(),
            out@ == chars@.subrange(from as int, i as int),
        decreases to - i,
    {
        out.push(chars[i]);
        i += 1;
        assert(chars@.subrange(from as int, i as int) == chars@.subrange(from as int, i - 1).push(
            chars@[i - 1],
        ));
    }
    out
}

/// The string made of all of `chars`.
pub fn string_from(chars: &Vec<char>) -> (r: String)
    ensures
        r@ == chars@,
{
    let r = string_of(chars, 0, chars.len());
    assert(chars@.subrange(0, chars@.len() as int) == chars@);
    r
}

/// Appends `chars[from..to]` to `out`.
pub fn push_range(out: &mut Vec<char>, chars: &Vec<char>, from: usize, to: usize)
    requires
        from <= to <= chars.len(),
    ensures
        final(out)@ == old(out)@ + chars@.subrange(from as int, to as int),
{
    let mut i: usize = from;
    while i < to
        invariant
            from <= i <= to <= chars.len(),
            out@ == old(out)@ + chars@.subrange(from as int, i as int),
        decreases to - i,
    {
        out.push(chars[i]);
        i += 1;
        assert(chars@.subrange(from as int, i as int) == chars@.subrange(from as int, i - 1).push(
            chars@[i - 1],
        ));
    }
}

/// A copy of `chars[from..to]`.
pub fn sub_vec(chars: &Vec<char>, from: usize, to: usize) -> (r: Vec<char>)
    requires
        from <= to <= chars.len(),
    ensures
        r@ == chars@.subrange(from as int, to as int),
{
    let mut out: Vec<char> = Vec::new();
    push_range(&mut out, chars, from, to);
    assert(out@ =~= chars@.subrange(from as int, to as int));
    out
}

/// Appends all of `chars` to `out`.
pub fn push_all(out: &mut Vec<char>, chars: &Vec<char>)
    ensures
        final(out)@ == old(out)@ + chars@,
{
    assert(chars@.subrange(0, chars@.len() as int) == chars@);
    push_range(out, chars, 0, chars.len());
}

/// Appends the characters of `s` to `out`.
pub fn push_str(out: &mut Vec<char>, s: &str)
    ensures
        final(out)@ == old(out)@ + s@,
{
    let chars = chars_of(s);
    push_all(out, &chars);
}

/// Whether `chars` begins with `prefix`.
pub fn starts_with(chars: &Vec<char>, prefix: &Vec<char>) -> (r: bool)
    ensures
        r == prefix@.is_prefix_of(chars@),
{
    if prefix.len() > chars.len() {
        return false;
    }
    let mut i: usize = 0;
    while i < prefix.len()
        invariant
            i <= prefix.len() <= chars.len(),
            forall|k: int| 0 <= k < i ==> chars@[k] == prefix@[k],
        decreases prefix.len() - i,
    {
        if chars[i] != prefix[i] {
            return false;
        }
        i += 1;
    }
    assert(chars@.subrange(0, prefix@.len() as int) =~= prefix@);
    true
}

/// Whether `chars` ends with `suffix`.
pub fn ends_with(chars: &Vec<char>, suffix: &Vec<char>) -> (r: bool)
    ensures
        r == suffix@.is_suffix_of(chars@),
{
    if suffix.len() > chars.len() {
        return false;
    }
    let shift: usize = chars.len() - suffix.len();
    let mut i: usize = 0;
    while i < suffix.len()
        invariant
            i <= suffix.len() <= chars.len(),
            shift == chars.len() - suffix.len(),
            forall|k: int| 0 <= k < i ==> chars@[shift + k] == suffix@[k],
        decreases suffix.len() - i,
    {
        if chars[shift + i] != suffix[i] {
            assert(chars@.subrange(shift as int, chars@.len() as int)[i as int] != suffix@[i as int]);
            return false;
        }
        i += 1;
    }
    assert(chars@.subrange(shift as int, chars@.len() as int) =~= suffix@);
    true
}

/// Whether the two texts hold the same characters.
pub fn same_text(a: &Vec<char>, b: &Vec<char>) -> (r: bool)
    ensures
        r == (a@ == b@),
{
    if a.len() != b.len() {
        return false;
    }
    let mut i: usize = 0;
    while i < a.len()
        invariant
            i <= a.len() == b.len(),
            forall|k: int| 0 <= k < i ==> a@[k] == b@[k],
        decreases a.len() - i,
    {
        if a[i] != b[i] {
            return false;
        }
        i += 1;
    }
    assert(a@ =~= b@);
    true
}

/// The first position at or after `from` that holds no white space.
pub fn skip_whitespace_from(chars: &Vec<char>, from: usize) -> (r: usize)
    requires
        from <= chars.len(),
    ensures
        r == skip_whitespace(chars@, from as int),
        from <= r <= chars.len(),
{
    let mut i: usize = from;
    while i < chars.len() && is_whitespace_char(chars[i])
        invariant
            from <= i <= chars.len(),
            skip_whitespace(chars@, i as int) == skip_whitespace(chars@, from as int),
        decreases chars.len() - i,
    {
        i += 1;
    }
    i
}

/// The length of `chars[..to]` without its trailing white space.
pub fn trimmed_end(chars: &Vec<char>, to: usize) -> (r: usize)
    requires
        to <= chars.len(),
    ensures
        r == trimmed_len(chars@.take(to as int)),
        r <= to,
{
    let mut i: usize = to;
    while i > 0 && is_whitespace_char(chars[i - 1])
        invariant
            i <= to <= chars.len(),
            trimmed_len(chars@.take(i as int)) == trimmed_len(chars@.take(to as int)),
        decreases i,
    {
        assert(chars@.take(i as int).drop_last() == chars@.take(i - 1));
        i -= 1;
    }
    i
}

/// The first position at or after `from` that does not hold `c`.
pub fn run_end_from(chars: &Vec<char>, c: char, from: usize) -> (r: usize)
    requires
        from <= chars.len(),
    ensures
        r == run_end(chars@, c, from as int),
        from <= r <= chars.len(),
{
    let mut i: usize = from;
    while i < chars.len() && chars[i] == c
        invariant
            from <= i <= chars.len(),
            run_end(chars@, c, i as int) == run_end(chars@, c, from as int),
        decreases chars.len() - i,
    {
        i += 1;
    }
    i
}

/// The position of the first `c` at or after `from`, or the length of the text.
pub fn find_char_from(chars: &Vec<char>, c: char, from: usize) -> (r: usize)
    requires
        from <= chars.len(),
    ensures
        r == find_char(chars@, c, from as int),
        from <= r <= chars.len(),
{
    let mut i: usize = from;
    while i < chars.len() && chars[i] != c
        invariant
            from <= i <= chars.len(),
            find_char(chars@, c, i as int) == find_char(chars@, c, from as int),
        decreases chars.len() - i,
    {
        i += 1;
    }
    i
}

/// The position of the first line feed at or after `from`, or the length of the
/// text.
pub fn find_line_end(chars: &Vec<char>, from: usize) -> (r: usize)
    requires
        from <= chars.len(),
    ensures
        r == line_end(chars@, from as int),
        from <= r <= chars.len(),
{
    find_char_from(chars, '\n', from)
}

/// The stretches of `chars` that `sep` separates, as ranges of positions.
pub fn split_at_char(chars: &Vec<char>, sep: char) -> (r: Vec<TextRange>)
    ensures
        r@ == split_spans(chars@, sep),
{
    let mut out: Vec<TextRange> = Vec::new();
    let mut pos: usize = 0;
    loop
        invariant
            pos <= chars.len(),
            out@ + split_spans_from(chars@, sep, pos as int) == split_spans(chars@, sep),
        decreases chars.len() - pos,
    {
        let e = find_char_from(chars, sep, pos);
        let ghost before = out@;
        out.push(TextRange { start: pos, end: e });
        if e == chars.len() {
            assert(before + split_spans_from(chars@, sep, pos as int) == out@);
            return out;
        }
        assert(before + split_spans_from(chars@, sep, pos as int) == out@ + split_spans_from(
            chars@,
            sep,
            e + 1,
        ));
        pos = e + 1;
    }
}

/// The lines of `chars`, as ranges of positions.
pub fn split_lines(chars: &Vec<char>) -> (r: Vec<TextRange>)
    ensures
        r@ == line_spans(chars@),
{
    let mut out: Vec<TextRange> = Vec::new();
    let mut pos: usize = 0;
    while pos < chars.len()
        invariant
            pos <= chars.len(),
            out@ + line_spans_from(chars@, pos as int) == line_spans(chars@),
        decreases chars.len() - pos,
    {
        let e = find_line_end(chars, pos);
        let stop = if e < chars.len() && pos < e && chars[e - 1] == '\r' {
            e - 1
        } else {
            e
        };
        let ghost before = out@;
        out.push(TextRange { start: pos, end: stop });
        if e == chars.len() {
            assert(before + line_spans_from(chars@, pos as int) == out@);
            return out;
        }
        assert(before + line_spans_from(chars@, pos as int) == out@ + line_spans_from(
            chars@,
            e + 1,
        ));
        pos = e + 1;
    }
    assert(out@ + Seq::<TextRange>::empty() == out@);
    out
}

/// The texts of a list of strings.
pub open spec fn texts(parts: Seq<String>) -> Seq<Seq<char>> {
    parts.map_values(|s: String| s@)
}

/// `parts` written one after another with `sep` between neighbours.
pub fn join_strings(parts: &Vec<String>, sep: &str) -> (r: String)
    ensures
        r@ == join(texts(parts@), sep@),
{
    let mut out: Vec<char> = Vec::new();
    let mut k: usize = 0;
    while k < parts.len()
        invariant
            k <= parts.len(),
            out@ == join(texts(parts@).take(k as int), sep@),
        decreases parts.len() - k,
    {
        let ghost before = texts(parts@).take(k as int);
        let ghost now = texts(parts@).take(k + 1);
        assert(now.drop_last() == before);
        assert(now.last() == parts@[k as int]@);
        if k > 0 {
            push_str(&mut out, sep);
        }
        push_str(&mut out, parts[k].as_str());
        k += 1;
    }
    assert(texts(parts@).take(parts@.len() as int) == texts(parts@));
    string_from(&out)
}

/// `text` with the characters of `range` replaced by `with`.
pub open spec fn spliced(text: Seq<char>, range: TextRange, with: Seq<char>) -> Seq<char> {
    text.subrange(0, range.start as int) + with + text.subrange(range.end as int, text.len() as int)
}

/// Replaces the characters of `range` in `text` by `with`.
pub fn splice(text: &mut String, range: TextRange, with: &str)
    requires
        range.fits(old(text)@.len()),
    ensures
        final(text)@ == spliced(old(text)@, range, with@),
{
    let chars = chars_of(text.as_str());
    let mut out: Vec<char> = Vec::new();
    push_range(&mut out, &chars, 0, range.start);
    push_str(&mut out, with);
    push_range(&mut out, &chars, range.end, chars.len());
    *text = string_from(&out);
}

/// `line` without its leading and trailing white space.
pub fn trimmed(line: &Vec<char>) -> (r: Vec<char>)
    ensures
        r@ == trim(line@),
{
    let end = trimmed_end(line, line.len());
    assert(line@.take(line@.len() as int) == line@);
    let head = sub_vec(line, 0, end);
    let from = skip_whitespace_from(&head, 0);
    sub_vec(&head, from, head.len())
}

} // verus!
