//! Fenced includes for markdown documents.
//!
//! A template is an ordinary markdown document in which some fenced blocks carry a
//! name and a small TOML configuration. Each such block is replaced by generated
//! text: a table of contents built from the document's headings, or the leading
//! documentation comment of a Rust source file.
//!
//!
//! ~~~text
//! My title
//!
//! ```toml toc
//! header = "# Table of contents"
//! ```
//!
//! ```toml rustdoc
//! source = "lib.rs"
//! ```
//! ~~~
//!
//! The crate reads no file. The caller asks which source files a document names
//! (`fence::required_sources`), reads them, and hands them over as an
//! `Environment`. In the same way the caller asks to which items of its crate
//! imported documentation links (`rustdoc_parse::intralinks`) and hands over the
//! addresses of those that it finds.
//!
//! A position in a document is the index of a character.
use vstd::prelude::*;
use crate::engine::{
    assemble, cut_gaps, cut_slots, execution_order, gap_texts, indices, lemma_execution_order,
    lemma_fault_stays, order_of, processed, ranks, seqs, slots_after,
};
use crate::fence::{
    fences_view, find_fences, find_fences_in, outer_ranges, Fence, FenceError, FenceFault,
    FenceModel,
};
use crate::rustdoc_parse::transform::intralinks::append_all;
use crate::rustdoc_parse::{warnings, warnings_of, Environment};
use crate::text::{
    chars_of, join, join_strings, lemma_line_spans, lines, push_all, push_str, split_lines,
    string_from, sub_vec, texts, trim, trimmed,
};

pub mod config;
pub mod engine;
pub mod fence;
pub mod joined;
pub mod rustdoc_parse;
pub mod text;

verus! {

/// Replaces every fence of `document` by what it generates. The fences run in the
/// order of their ranks, and each sees the document as the fences before it have
/// left it. On an error the document is left as it was.
pub fn process_includes_document(document: &mut String, environment: &Environment) -> (r: Result<
    (),
    FenceError,
>)
    ensures
        match r {
            Ok(_) => processed(old(document)@, *environment) == Ok::<_, FenceFault>(
                final(document)@,
            ),
            Err(e) => processed(old(document)@, *environment) == Err::<Seq<char>, _>(e@)
                && final(document)@ == old(document)@,
        },
{
    let chars = chars_of(document.as_str());
    let list = match find_fences_in(&chars) {
        Ok(list) => list,
        Err(e) => {
            return Err(e);
        },
    };
    let ghost doc = chars@;
    let ghost models = fences_view(list@);
    let ghost plan = execution_order(ranks(models));
    let order = order_of(&list);
    let gaps = cut_gaps(&chars, &list);
    let mut slots = cut_slots(&chars, &list);
    proof {
        lemma_execution_order(ranks(models), models.len() as int);
        assert(seqs(gaps@).len() == gaps@.len());
        assert(texts(slots@).len() == slots@.len());
    }
    let mut j: usize = 0;
    while j < order.len()
        invariant
            j <= order.len(),
            doc == chars@,
            doc == old(document)@,
            *document == *old(document),
            models == fences_view(list@),
            crate::fence::fences(doc) == Ok::<_, FenceFault>(models),
            plan == execution_order(ranks(models)),
            plan == indices(order@),
            order@.len() == list@.len(),
            models.len() == list@.len(),
            forall|p: int| 0 <= p < order@.len() ==> #[trigger] order@[p] < list@.len(),
            seqs(gaps@) == gap_texts(doc, outer_ranges(models)),
            gaps@.len() == list@.len() + 1,
            slots@.len() == list@.len(),
            slots_after(doc, models, *environment, plan, j as int) == Ok::<_, FenceFault>(
                texts(slots@),
            ),
        decreases order.len() - j,
    {
        let i = order[j];
        let ghost before = texts(slots@);
        assert(plan[j as int] == i);
        assert(models[i as int] == list@[i as int]@);
        let generated = match &list[i] {
            Fence::Toc(fence) => Ok(fence.render(assemble(&gaps, &slots).as_str())),
            Fence::RustDoc(fence) => fence.render(environment),
        };
        match generated {
            Ok(text) => {
                slots.set(i, text);
                assert(texts(slots@) =~= before.update(i as int, text@));
            },
            Err(e) => {
                proof {
                    assert(slots_after(doc, models, *environment, plan, j + 1) == Err::<
                        Seq<Seq<char>>,
                        _,
                    >(e@));
                    lemma_fault_stays(
                        doc,
                        models,
                        *environment,
                        plan,
                        j + 1,
                        models.len() as int,
                    );
                }
                return Err(e);
            },
        }
        j += 1;
    }
    *document = assemble(&gaps, &slots);
    Ok(())
}

/// The warnings that a fence gives as it runs: those of its import, if it imports
/// documentation and the import does not fail.
pub open spec fn warnings_of_fence(fence: FenceModel, environment: Environment) -> Seq<Seq<char>> {
    match fence {
        FenceModel::RustDoc { request, .. } => match warnings_of(request, environment) {
            Ok(list) => list,
            Err(_) => Seq::empty(),
        },
        FenceModel::Toc { .. } => Seq::empty(),
    }
}

/// The warnings that the fences of a document give, in the order of the fences.
pub open spec fn warnings_of_document(doc: Seq<char>, environment: Environment) -> Result<
    Seq<Seq<char>>,
    FenceFault,
> {
    match crate::fence::fences(doc) {
        Ok(list) => Ok(
            list.map_values(|f: FenceModel| warnings_of_fence(f, environment)).flatten(),
        ),
        Err(e) => Err(e),
    }
}

/// The warnings that the fences of `document` give: one for each link of imported
/// documentation to an item of its crate that was not resolved. Such a link stays
/// in the document as it was written.
pub fn intralink_warnings(document: &str, environment: &Environment) -> (r: Result<
    Vec<String>,
    FenceError,
>)
    ensures
        match r {
            Ok(list) => warnings_of_document(document@, *environment) == Ok::<_, FenceFault>(
                texts(list@),
            ),
            Err(e) => warnings_of_document(document@, *environment) == Err::<Seq<Seq<char>>, _>(
                e@,
            ),
        },
{
    let list = match find_fences(document) {
        Ok(list) => list,
        Err(e) => {
            return Err(e);
        },
    };
    let ghost models = fences_view(list@);
    let ghost tell = |f: FenceModel| warnings_of_fence(f, *environment);
    let mut out: Vec<String> = Vec::new();
    let mut k: usize = 0;
    assert(texts(out@) =~= models.take(0).map_values(tell).flatten());
    while k < list.len()
        invariant
            k <= list.len(),
            models == fences_view(list@),
            tell == |f: FenceModel| warnings_of_fence(f, *environment),
            texts(out@) == models.take(k as int).map_values(tell).flatten(),
        decreases list.len() - k,
    {
        let ghost before = models.take(k as int).map_values(tell);
        proof {
            assert(models[k as int] == list@[k as int]@);
            assert(models.take(k + 1).map_values(tell) =~= before.push(
                warnings_of_fence(models[k as int], *environment),
            ));
            before.lemma_flatten_push(warnings_of_fence(models[k as int], *environment));
        }
        match &list[k] {
            Fence::RustDoc(fence) => match warnings(&fence.conf, environment) {
                Ok(more) => {
                    append_all(&mut out, more);
                },
                Err(_) => {
                    assert(texts(out@) + Seq::<Seq<char>>::empty() =~= texts(out@));
                },
            },
            Fence::Toc(_) => {
                assert(texts(out@) + Seq::<Seq<char>>::empty() =~= texts(out@));
            },
        }
        k += 1;
    }
    assert(models.take(list@.len() as int) == models);
    Ok(out)
}

/// The lines of two documents side by side, each line without the white space
/// around it: as many pairs as the shorter document has lines.
pub open spec fn line_pairs(doc1: Seq<char>, doc2: Seq<char>) -> Seq<(Seq<char>, Seq<char>)> {
    Seq::new(
        if lines(doc1).len() <= lines(doc2).len() {
            lines(doc1).len()
        } else {
            lines(doc2).len()
        },
        |i: int| (trim(lines(doc1)[i]), trim(lines(doc2)[i])),
    )
}

/// How a pair of lines that differ is reported.
pub open spec fn report(pair: (Seq<char>, Seq<char>)) -> Seq<char> {
    "> "@ + pair.0 + "\n< "@ + pair.1 + "\n"@
}

/// The reports of the pairs of lines that differ, in order.
pub open spec fn differences(doc1: Seq<char>, doc2: Seq<char>) -> Seq<Seq<char>> {
    line_pairs(doc1, doc2).filter(|pair: (Seq<char>, Seq<char>)| pair.0 != pair.1).map_values(
        |pair: (Seq<char>, Seq<char>)| report(pair),
    )
}

/// The first reports of a list: five of them, or all if there are fewer.
pub open spec fn first_five(all: Seq<Seq<char>>) -> Seq<Seq<char>> {
    all.take(
        if all.len() <= 5 {
            all.len() as int
        } else {
            5
        },
    )
}

/// What tells two documents apart: `None` if no line of the one differs from the
/// line of the other that stands at the same place, white space around the lines
/// aside; else the first five reports of such lines, with `, ` between them.
/// Lines that only the longer document has are not looked at.
pub open spec fn difference(doc1: Seq<char>, doc2: Seq<char>) -> Option<Seq<char>> {
    if differences(doc1, doc2).len() == 0 {
        None
    } else {
        Some(join(first_five(differences(doc1, doc2)), ", "@))
    }
}

/// What tells `doc1` and `doc2` apart, or `None` if their lines agree.
pub fn diff(doc1: &str, doc2: &str) -> (r: Option<String>)
    ensures
        match r {
            Some(text) => difference(doc1@, doc2@) == Some(text@),
            None => difference(doc1@, doc2@) is None,
        },
{
    let left = chars_of(doc1);
    let right = chars_of(doc2);
    let left_lines = split_lines(&left);
    let right_lines = split_lines(&right);
    let ghost pairs = line_pairs(doc1@, doc2@);
    let ghost differs = |pair: (Seq<char>, Seq<char>)| pair.0 != pair.1;
    let ghost reported = |pair: (Seq<char>, Seq<char>)| report(pair);
    proof {
        assert(left@.len() == left.len());
        assert(right@.len() == right.len());
        lemma_line_spans(left@, 0);
        lemma_line_spans(right@, 0);
    }
    let count = if left_lines.len() <= right_lines.len() {
        left_lines.len()
    } else {
        right_lines.len()
    };
    let mut reports: Vec<String> = Vec::new();
    let mut k: usize = 0;
    assert(texts(reports@) =~= first_five(pairs.take(0).filter(differs).map_values(reported))) by {
        broadcast use vstd::seq_lib::group_filter_ensures;

    }
    while k < count
        invariant
            k <= count,
            count == pairs.len(),
            count <= left_lines@.len(),
            count <= right_lines@.len(),
            left@ == doc1@,
            right@ == doc2@,
            left_lines@ == crate::text::line_spans(doc1@),
            right_lines@ == crate::text::line_spans(doc2@),
            pairs == line_pairs(doc1@, doc2@),
            differs == |pair: (Seq<char>, Seq<char>)| pair.0 != pair.1,
            reported == |pair: (Seq<char>, Seq<char>)| report(pair),
            forall|i: int|
                0 <= i < left_lines@.len() ==> (#[trigger] left_lines@[i]).fits(left@.len()),
            forall|i: int|
                0 <= i < right_lines@.len() ==> (#[trigger] right_lines@[i]).fits(right@.len()),
            texts(reports@) == first_five(pairs.take(k as int).filter(differs).map_values(reported)),
        decreases count - k,
    {
        let a = left_lines[k];
        let b = right_lines[k];
        let line1 = trimmed(&sub_vec(&left, a.start, a.end));
        let line2 = trimmed(&sub_vec(&right, b.start, b.end));
        let ghost so_far = pairs.take(k as int).filter(differs).map_values(reported);
        let ghost before = texts(reports@);
        proof {
            assert(lines(doc1@)[k as int] == a.of(left@));
            assert(lines(doc2@)[k as int] == b.of(right@));
            assert(pairs[k as int] == (line1@, line2@));
            assert(pairs.take(k + 1) == pairs.take(k as int).push(pairs[k as int]));
            pairs.take(k as int).lemma_filter_push(pairs[k as int], differs);
        }
        if !crate::text::same_text(&line1, &line2) {
            proof {
                assert(pairs.take(k + 1).filter(differs).map_values(reported) =~= so_far.push(
                    report(pairs[k as int]),
                ));
            }
            if reports.len() < 5 {
                let mut out: Vec<char> = Vec::new();
                push_str(&mut out, "> ");
                push_all(&mut out, &line1);
                push_str(&mut out, "\n< ");
                push_all(&mut out, &line2);
                push_str(&mut out, "\n");
                let text = string_from(&out);
                reports.push(text);
                assert(texts(reports@) =~= before.push(report(pairs[k as int])));
                assert(texts(reports@) =~= first_five(so_far.push(report(pairs[k as int]))));
            } else {
                assert(before =~= first_five(so_far.push(report(pairs[k as int]))));
            }
        }
        k += 1;
    }
    assert(pairs.take(count as int) == pairs);
    if reports.len() == 0 {
        None
    } else {
        Some(join_strings(&reports, ", "))
    }
}

} // verus!
