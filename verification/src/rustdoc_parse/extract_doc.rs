//! The documentation of a crate, as its source file writes it.
//!
//! The documentation is made of the inner `doc` attributes at the top of the file,
//! which is how the compiler reads the comments that begin with `//!` or `/*!`.
use vstd::prelude::*;
use crate::rustdoc_parse::Doc;
use crate::text::{
    chars_of, is_whitespace, is_whitespace_char, join, join_strings, lemma_line_spans, lines,
    split_lines, string_of, texts,
};

verus! {

/// An attribute at the top of a source file.
#[derive(Debug)]
pub struct SourceAttribute {
    /// Whether the attribute is an inner one, written with `#!`.
    pub inner: bool,
    /// Whether the attribute's path is the one word `doc`.
    pub doc: bool,
    /// The string of the attribute, if the attribute gives a string literal a name.
    pub text: Option<String>,
}

/// The model of a `SourceAttribute`.
pub struct AttributeModel {
    pub inner: bool,
    pub doc: bool,
    pub text: Option<Seq<char>>,
}

impl View for SourceAttribute {
    type V = AttributeModel;

    open spec fn view(&self) -> AttributeModel {
        AttributeModel {
            inner: self.inner,
            doc: self.doc,
            text: match self.text {
                Some(t) => Some(t@),
                None => None,
            },
        }
    }
}

/// The models of a list of attributes.
pub open spec fn attributes_view(attributes: Seq<SourceAttribute>) -> Seq<AttributeModel> {
    attributes.map_values(|a: SourceAttribute| a@)
}

/// The model of what parsing a source file gave.
pub open spec fn parsed_view(parsed: Result<Vec<SourceAttribute>, String>) -> Result<
    Seq<AttributeModel>,
    Seq<char>,
> {
    match parsed {
        Ok(attributes) => Ok(attributes_view(attributes@)),
        Err(message) => Err(message@),
    }
}

/// What `syn` makes of a source file: the attributes at the top of the file, in
/// order, or the message of the error.
pub uninterp spec fn source_attributes(source: Seq<char>) -> Result<Seq<AttributeModel>, Seq<char>>;

/// `syn::parse_str` reads `source` as a `syn::File`. Of each attribute of the
/// file this keeps whether its style is inner, whether `Path::is_ident` finds its
/// path to be `doc`, and the value of the string literal if
/// `Attribute::parse_meta` finds a name and a string literal. An error is handed
/// on as its message.
#[verifier::external_body]
pub(crate) fn parse_attributes(source: &str) -> (r: Result<Vec<SourceAttribute>, String>)
    ensures
        parsed_view(r) == source_attributes(source@),
{
    let ast = match syn::parse_str::<syn::File>(source) {
        Ok(ast) => ast,
        Err(e) => return Err(e.to_string()),
    };
    let text = |meta| match meta {
        Ok(syn::Meta::NameValue(syn::MetaNameValue { lit: syn::Lit::Str(s), .. })) => Some(s.value()),
        _ => None,
    };
    let attribute = |attr: &syn::Attribute| SourceAttribute {
        inner: matches!(attr.style, syn::AttrStyle::Inner(_)),
        doc: attr.path.is_ident("doc"),
        text: text(attr.parse_meta()),
    };
    Ok(ast.attrs.iter().map(attribute).collect())
}

/// Whether a line holds nothing but white space.
pub open spec fn is_blank(line: Seq<char>) -> bool {
    forall|i: int| 0 <= i < line.len() ==> is_whitespace(#[trigger] line[i])
}

/// Whether an attribute is documentation of the crate: an inner `doc` attribute
/// with a string.
pub open spec fn is_toplevel_doc(attribute: AttributeModel) -> bool {
    attribute.inner && attribute.doc && attribute.text is Some
}

/// The lines that the string of one `doc` attribute adds to the documentation.
///
/// A string without a line adds an empty line. A string of one line adds itself,
/// without one leading space. A string of several lines, which a block comment
/// gives, adds its lines, but for a first line that is blank.
pub open spec fn attribute_lines(text: Seq<char>) -> Seq<Seq<char>> {
    let all = lines(text);
    if all.len() == 0 {
        seq![Seq::empty()]
    } else if all.len() == 1 {
        seq![
            if text.len() > 0 && text[0] == ' ' {
                text.drop_first()
            } else {
                text
            },
        ]
    } else if is_blank(all[0]) {
        all.drop_first()
    } else {
        all
    }
}

/// The lines of the documentation that the attributes hold.
pub open spec fn doc_lines(attributes: Seq<AttributeModel>) -> Seq<Seq<char>> {
    attributes.filter(|a: AttributeModel| is_toplevel_doc(a)).map_values(
        |a: AttributeModel| attribute_lines(a.text->0),
    ).flatten()
}

/// The documentation that the attributes hold: its lines joined by line feeds, or
/// `None` if the attributes hold no documentation.
pub open spec fn extracted(attributes: Seq<AttributeModel>) -> Option<Seq<char>> {
    if doc_lines(attributes).len() == 0 {
        None
    } else {
        Some(join(doc_lines(attributes), seq!['\n']))
    }
}

/// The documentation of the crate whose source file is `source`, or the message
/// with which the file was refused.
pub open spec fn extracted_from(source: Seq<char>) -> Result<Option<Seq<char>>, Seq<char>> {
    match source_attributes(source) {
        Ok(attributes) => Ok(extracted(attributes)),
        Err(message) => Err(message),
    }
}

/// The model of a piece of documentation that may be absent.
pub open spec fn doc_view(doc: Option<Doc>) -> Option<Seq<char>> {
    match doc {
        Some(d) => Some(d.content@),
        None => None,
    }
}

/// The model of what extraction gave.
pub open spec fn extraction_view(r: Result<Option<Doc>, String>) -> Result<
    Option<Seq<char>>,
    Seq<char>,
> {
    match r {
        Ok(doc) => Ok(doc_view(doc)),
        Err(message) => Err(message@),
    }
}

/// Whether `line` holds nothing but white space.
fn is_blank_line(line: &Vec<char>, from: usize, to: usize) -> (r: bool)
    requires
        from <= to <= line.len(),
    ensures
        r == is_blank(line@.subrange(from as int, to as int)),
{
    let mut i: usize = from;
    while i < to
        invariant
            from <= i <= to <= line.len(),
            forall|k: int| from <= k < i ==> is_whitespace(#[trigger] line@[k]),
        decreases to - i,
    {
        if !is_whitespace_char(line[i]) {
            assert(line@.subrange(from as int, to as int)[i - from] == line@[i as int]);
            return false;
        }
        i += 1;
    }
    assert forall|k: int| 0 <= k < to - from implies is_whitespace(
        #[trigger] line@.subrange(from as int, to as int)[k],
    ) by {
        assert(line@.subrange(from as int, to as int)[k] == line@[from + k]);
    }
    true
}

/// Adds to `out` the lines that the string of one `doc` attribute holds.
fn push_attribute_lines(out: &mut Vec<String>, text: &str)
    ensures
        texts(final(out)@) == texts(old(out)@) + attribute_lines(text@),
{
    let chars = chars_of(text);
    let spans = split_lines(&chars);
    let ghost before = texts(out@);
    proof {
        assert(chars@.len() == chars.len());
        lemma_line_spans(chars@, 0);
    }
    if spans.len() == 0 {
        out.push(String::new());
        assert(texts(out@) =~= before + attribute_lines(text@));
    } else if spans.len() == 1 {
        let from: usize = if chars.len() > 0 && chars[0] == ' ' {
            1
        } else {
            0
        };
        let line = string_of(&chars, from, chars.len());
        out.push(line);
        assert(chars@.subrange(0, chars@.len() as int) == chars@);
        assert(texts(out@) =~= before + attribute_lines(text@));
    } else {
        let first = spans[0];
        assert(lines(text@)[0] == first.of(chars@));
        let skip: usize = if is_blank_line(&chars, first.start, first.end) {
            1
        } else {
            0
        };
        let mut k: usize = skip;
        while k < spans.len()
            invariant
                skip <= k <= spans.len(),
                chars@ == text@,
                spans@ == crate::text::line_spans(text@),
                spans@.len() == lines(text@).len(),
                forall|i: int| 0 <= i < spans@.len() ==> (#[trigger] spans@[i]).fits(chars@.len()),
                texts(out@) == before + lines(text@).subrange(skip as int, k as int),
            decreases spans.len() - k,
        {
            let span = spans[k];
            let ghost so_far = texts(out@);
            assert(lines(text@)[k as int] == span.of(chars@));
            out.push(string_of(&chars, span.start, span.end));
            k += 1;
            assert(texts(out@) =~= so_far.push(span.of(chars@)));
            assert(lines(text@).subrange(skip as int, k as int) =~= lines(text@).subrange(
                skip as int,
                k - 1,
            ).push(lines(text@)[k - 1]));
        }
        assert(lines(text@).subrange(0, lines(text@).len() as int) == lines(text@));
        assert(lines(text@).subrange(1, lines(text@).len() as int) == lines(text@).drop_first());
    }
}

/// The documentation that the attributes at the top of a source file hold.
pub fn extract_doc_from_attributes(attributes: &Vec<SourceAttribute>) -> (r: Option<Doc>)
    ensures
        doc_view(r) == extracted(attributes_view(attributes@)),
{
    let ghost all = attributes_view(attributes@);
    let ghost wanted = |a: AttributeModel| is_toplevel_doc(a);
    let ghost to_lines = |a: AttributeModel| attribute_lines(a.text->0);
    let mut found: Vec<String> = Vec::new();
    let mut k: usize = 0;
    while k < attributes.len()
        invariant
            k <= attributes.len(),
            all == attributes_view(attributes@),
            wanted == |a: AttributeModel| is_toplevel_doc(a),
            to_lines == |a: AttributeModel| attribute_lines(a.text->0),
            texts(found@) == all.take(k as int).filter(wanted).map_values(to_lines).flatten(),
        decreases attributes.len() - k,
    {
        let attribute = &attributes[k];
        let ghost kept = all.take(k as int).filter(wanted);
        proof {
            assert(all[k as int] == attribute@);
            assert(all.take(k + 1) == all.take(k as int).push(all[k as int]));
            all.take(k as int).lemma_filter_push(all[k as int], wanted);
        }
        if attribute.inner && attribute.doc {
            match &attribute.text {
                Some(text) => {
                    push_attribute_lines(&mut found, text.as_str());
                    proof {
                        assert(kept.push(all[k as int]).map_values(to_lines) =~= kept.map_values(
                            to_lines,
                        ).push(attribute_lines(text@)));
                        kept.map_values(to_lines).lemma_flatten_push(attribute_lines(text@));
                    }
                },
                None => {},
            }
        }
        k += 1;
    }
    assert(all.take(attributes@.len() as int) == all);
    if found.len() == 0 {
        assert(texts(found@).len() == 0);
        None
    } else {
        assert(texts(found@).len() == found@.len());
        proof {
            reveal_strlit("\n");
            assert("\n"@ =~= seq!['\n']);
        }
        Some(Doc { content: join_strings(&found, "\n") })
    }
}

/// The documentation of the crate whose source file holds the text `source`:
/// `Ok(None)` if the file has none, `Err` with the parser's message if the text is
/// no Rust source file.
pub fn extract_doc_from_source_str(source: &str) -> (r: Result<Option<Doc>, String>)
    ensures
        extraction_view(r) == extracted_from(source@),
{
    match parse_attributes(source) {
        Ok(attributes) => Ok(extract_doc_from_attributes(&attributes)),
        Err(message) => Err(message),
    }
}

} // verus!
