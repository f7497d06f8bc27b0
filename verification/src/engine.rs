//! The order in which the fences of a document run, and the document that results.
//!
//! The fences are found once, in the document as it was written. The text between
//! them never changes; each fence has a slot, which holds the fence as it was
//! written until the fence has run and what it generated from then on. The
//! document at any moment is the unchanged text with the slots as they are.
use vstd::prelude::*;
use crate::fence::{fences_view, in_order, outer_ranges, Fence, FenceFault, FenceModel};
use crate::rustdoc_parse::Environment;
use crate::text::{push_all, push_str, string_from, string_of, sub_vec, TextRange};

verus! {

/// The ranks of a list of fences.
pub open spec fn ranks(list: Seq<FenceModel>) -> Seq<u8> {
    list.map_values(|f: FenceModel| f.rank())
}

/// Whether fence `a` runs before fence `b`: it has the lower rank, or the same
/// rank and stands earlier.
pub open spec fn runs_before(ranks: Seq<u8>, a: int, b: int) -> bool {
    ranks[a] < ranks[b] || (ranks[a] == ranks[b] && a < b)
}

/// The first position at or after `p` in `order` whose fence has a rank above
/// `rank`, or the length of `order` if there is none.
pub open spec fn place(order: Seq<int>, ranks: Seq<u8>, rank: u8, p: int) -> int
    decreases order.len() - p,
{
    if 0 <= p < order.len() && ranks[order[p]] <= rank {
        place(order, ranks, rank, p + 1)
    } else {
        p
    }
}

/// The order in which the first `k` fences run: each fence is put behind the
/// fences before it whose rank is not higher.
pub open spec fn order_upto(ranks: Seq<u8>, k: int) -> Seq<int>
    decreases k,
{
    if k <= 0 {
        Seq::empty()
    } else {
        let before = order_upto(ranks, k - 1);
        before.insert(place(before, ranks, ranks[k - 1], 0), k - 1)
    }
}

/// The order in which fences with these ranks run, as indices into the list of
/// fences.
pub open spec fn execution_order(ranks: Seq<u8>) -> Seq<int> {
    order_upto(ranks, ranks.len() as int)
}

/// `place` stays inside the order; the fences before it have no higher rank than
/// `rank`, and the fence at it has.
pub proof fn lemma_place(order: Seq<int>, ranks: Seq<u8>, rank: u8, p: int)
    requires
        0 <= p <= order.len(),
    ensures
        p <= place(order, ranks, rank, p) <= order.len(),
        forall|q: int| p <= q < place(order, ranks, rank, p) ==> ranks[#[trigger] order[q]] <= rank,
        place(order, ranks, rank, p) < order.len() ==> ranks[order[place(order, ranks, rank, p)]]
            > rank,
    decreases order.len() - p,
{
    if p < order.len() && ranks[order[p]] <= rank {
        lemma_place(order, ranks, rank, p + 1);
    }
}

/// The fences run in the order of their ranks, fences of one rank in the order in
/// which they stand, and each fence runs exactly once.
pub proof fn lemma_execution_order(ranks: Seq<u8>, k: int)
    requires
        0 <= k <= ranks.len(),
    ensures
        order_upto(ranks, k).len() == k,
        forall|p: int| 0 <= p < k ==> 0 <= #[trigger] order_upto(ranks, k)[p] < k,
        forall|p: int, q: int|
            0 <= p < q < k ==> runs_before(
                ranks,
                #[trigger] order_upto(ranks, k)[p],
                #[trigger] order_upto(ranks, k)[q],
            ),
        forall|i: int| 0 <= i < k ==> order_upto(ranks, k).contains(i),
    decreases k,
{
    if k > 0 {
        lemma_execution_order(ranks, k - 1);
        let before = order_upto(ranks, k - 1);
        let rank = ranks[k - 1];
        let at = place(before, ranks, rank, 0);
        let now = order_upto(ranks, k);
        lemma_place(before, ranks, rank, 0);
        assert(now == before.insert(at, k - 1));
        assert forall|p: int| 0 <= p < k implies 0 <= #[trigger] now[p] < k by {
            if p < at {
                assert(now[p] == before[p]);
            } else if p > at {
                assert(now[p] == before[p - 1]);
            }
        }
        assert forall|p: int, q: int| 0 <= p < q < k implies runs_before(
            ranks,
            #[trigger] now[p],
            #[trigger] now[q],
        ) by {
            if q < at {
                assert(now[p] == before[p] && now[q] == before[q]);
            } else if q == at {
                assert(now[p] == before[p]);
            } else if p < at {
                assert(now[p] == before[p] && now[q] == before[q - 1]);
            } else if p == at {
                assert(now[q] == before[q - 1]);
                if at < q - 1 {
                    assert(runs_before(ranks, before[at], before[q - 1]));
                }
            } else {
                assert(now[p] == before[p - 1] && now[q] == before[q - 1]);
            }
        }
        assert forall|i: int| 0 <= i < k implies now.contains(i) by {
            if i == k - 1 {
                assert(now[at] == i);
            } else {
                assert(before.contains(i));
                let p = choose|p: int| 0 <= p < before.len() && before[p] == i;
                if p < at {
                    assert(now[p] == i);
                } else {
                    assert(now[p + 1] == i);
                }
            }
        }
    }
}

/// The order as a list of indices.
pub open spec fn indices(order: Seq<usize>) -> Seq<int> {
    order.map_values(|i: usize| i as int)
}

/// The order in which the fences of `list` run.
pub fn order_of(list: &Vec<Fence>) -> (r: Vec<usize>)
    ensures
        indices(r@) == execution_order(ranks(fences_view(list@))),
        r@.len() == list@.len(),
        forall|p: int| 0 <= p < r@.len() ==> #[trigger] r@[p] < list@.len(),
{
    let ghost all = ranks(fences_view(list@));
    let mut order: Vec<usize> = Vec::new();
    let mut k: usize = 0;
    assert(indices(order@) =~= order_upto(all, 0));
    while k < list.len()
        invariant
            k <= list.len(),
            all == ranks(fences_view(list@)),
            all.len() == list@.len(),
            indices(order@) == order_upto(all, k as int),
            order@.len() == k,
            forall|p: int| 0 <= p < order@.len() ==> #[trigger] order@[p] < k,
        decreases list.len() - k,
    {
        let rank = list[k].priority();
        assert(all[k as int] == rank);
        let ghost before = indices(order@);
        let mut at: usize = 0;
        while at < order.len() && list[order[at]].priority() <= rank
            invariant
                at <= order.len(),
                k < list.len(),
                all == ranks(fences_view(list@)),
                all.len() == list@.len(),
                before == indices(order@),
                forall|p: int| 0 <= p < order@.len() ==> #[trigger] order@[p] < k,
                place(before, all, rank, at as int) == place(before, all, rank, 0),
            decreases order.len() - at,
        {
            assert(before[at as int] == order@[at as int]);
            assert(all[order@[at as int] as int] == list@[order@[at as int] as int]@.rank());
            at += 1;
        }
        proof {
            if at < order.len() {
                assert(before[at as int] == order@[at as int]);
                assert(all[order@[at as int] as int] == list@[order@[at as int] as int]@.rank());
            }
        }
        order.insert(at, k);
        assert(indices(order@) =~= before.insert(at as int, k as int));
        k += 1;
    }
    order
}

/// The text that stands before fence `k` and after the fence before it: from the
/// start of the document for the first fence, to its end after the last.
pub open spec fn gap_text(doc: Seq<char>, ranges: Seq<TextRange>, k: int) -> Seq<char> {
    doc.subrange(
        if k <= 0 {
            0
        } else {
            ranges[k - 1].end as int
        },
        if k >= ranges.len() {
            doc.len() as int
        } else {
            ranges[k].start as int
        },
    )
}

/// The texts between the fences: one more than there are fences.
pub open spec fn gap_texts(doc: Seq<char>, ranges: Seq<TextRange>) -> Seq<Seq<char>> {
    Seq::new(ranges.len() + 1, |k: int| gap_text(doc, ranges, k))
}

/// The fences as the document writes them.
pub open spec fn written_slots(doc: Seq<char>, ranges: Seq<TextRange>) -> Seq<Seq<char>> {
    ranges.map_values(|r: TextRange| r.of(doc))
}

/// The first `k` slots, each after the text that stands before it.
pub open spec fn assembled_upto(gaps: Seq<Seq<char>>, slots: Seq<Seq<char>>, k: int) -> Seq<char>
    decreases k,
{
    if k <= 0 {
        Seq::empty()
    } else {
        assembled_upto(gaps, slots, k - 1) + gaps[k - 1] + slots[k - 1]
    }
}

/// The document that holds the texts `gaps` with the slots between them.
pub open spec fn assembled(gaps: Seq<Seq<char>>, slots: Seq<Seq<char>>) -> Seq<char> {
    assembled_upto(gaps, slots, slots.len() as int) + gaps[slots.len() as int]
}

/// The slots after the first `j` fences of the order have run, or the fault of
/// the first fence that failed. Each fence is replaced by what it generates from
/// the document as the fences before it have left it.
pub open spec fn slots_after(
    doc: Seq<char>,
    list: Seq<FenceModel>,
    environment: Environment,
    order: Seq<int>,
    j: int,
) -> Result<Seq<Seq<char>>, FenceFault>
    decreases j,
{
    if j <= 0 {
        Ok(written_slots(doc, outer_ranges(list)))
    } else {
        match slots_after(doc, list, environment, order, j - 1) {
            Err(e) => Err(e),
            Ok(slots) => match list[order[j - 1]].replacement(
                assembled(gap_texts(doc, outer_ranges(list)), slots),
                environment,
            ) {
                Err(e) => Err(e),
                Ok(text) => Ok(slots.update(order[j - 1], text)),
            },
        }
    }
}

/// The document that results when the fences `list` of `doc` have run, or the
/// fault of the first fence that failed.
pub open spec fn processed_with(doc: Seq<char>, list: Seq<FenceModel>, environment: Environment) -> Result<
    Seq<char>,
    FenceFault,
> {
    match slots_after(
        doc,
        list,
        environment,
        execution_order(ranks(list)),
        list.len() as int,
    ) {
        Ok(slots) => Ok(assembled(gap_texts(doc, outer_ranges(list)), slots)),
        Err(e) => Err(e),
    }
}

/// The document that results from `doc`, or the fault that stops the run: that
/// of the first fence whose configuration is refused, or else that of the first
/// fence that fails as it runs.
pub open spec fn processed(doc: Seq<char>, environment: Environment) -> Result<
    Seq<char>,
    FenceFault,
> {
    match crate::fence::fences(doc) {
        Ok(list) => processed_with(doc, list, environment),
        Err(e) => Err(e),
    }
}

/// A document whose fences are all as they were written is the document as it was
/// written: what stands outside the fences is never changed.
pub proof fn lemma_written_document(doc: Seq<char>, ranges: Seq<TextRange>, k: int)
    requires
        in_order(ranges, doc.len()),
        0 <= k <= ranges.len(),
    ensures
        assembled_upto(gap_texts(doc, ranges), written_slots(doc, ranges), k) == doc.subrange(
            0,
            if k == 0 {
                0
            } else {
                ranges[k - 1].end as int
            },
        ),
        k == ranges.len() ==> assembled(gap_texts(doc, ranges), written_slots(doc, ranges)) == doc,
    decreases k,
{
    let gaps = gap_texts(doc, ranges);
    let slots = written_slots(doc, ranges);
    if k > 0 {
        lemma_written_document(doc, ranges, k - 1);
        assert(ranges[k - 1].fits(doc.len()));
        if k > 1 {
            assert(ranges[k - 2].fits(doc.len()));
            assert(ranges[k - 2].end <= ranges[k - 1].start);
        }
        assert(assembled_upto(gaps, slots, k) =~= doc.subrange(0, ranges[k - 1].end as int));
    } else {
        assert(assembled_upto(gaps, slots, k) =~= doc.subrange(0, 0));
    }
    if k == ranges.len() {
        if k > 0 {
            assert(ranges[k - 1].fits(doc.len()));
        }
        assert(assembled(gaps, slots) =~= doc);
    }
}

/// The texts of a list of texts.
pub open spec fn seqs(list: Seq<Vec<char>>) -> Seq<Seq<char>> {
    list.map_values(|v: Vec<char>| v@)
}

/// The texts between the fences of `list` in `document`.
pub fn cut_gaps(document: &Vec<char>, list: &Vec<Fence>) -> (r: Vec<Vec<char>>)
    requires
        in_order(outer_ranges(fences_view(list@)), document@.len()),
    ensures
        seqs(r@) == gap_texts(document@, outer_ranges(fences_view(list@))),
{
    let ghost ranges = outer_ranges(fences_view(list@));
    let mut gaps: Vec<Vec<char>> = Vec::new();
    let mut from: usize = 0;
    let mut k: usize = 0;
    while k < list.len()
        invariant
            k <= list.len(),
            ranges == outer_ranges(fences_view(list@)),
            ranges.len() == list@.len(),
            in_order(ranges, document@.len()),
            from <= document@.len(),
            from == if k == 0 {
                0
            } else {
                ranges[k - 1].end
            },
            gaps@.len() == k,
            forall|i: int| 0 <= i < k ==> (#[trigger] gaps@[i])@ == gap_text(document@, ranges, i),
        decreases list.len() - k,
    {
        let range = list[k].outer_range();
        assert(ranges[k as int] == range);
        assert(ranges[k as int].fits(document@.len()));
        if k > 0 {
            assert(ranges[k - 1].end <= ranges[k as int].start);
        }
        gaps.push(sub_vec(document, from, range.start));
        from = range.end;
        k += 1;
    }
    gaps.push(sub_vec(document, from, document.len()));
    assert(seqs(gaps@) =~= gap_texts(document@, ranges));
    gaps
}

/// The fences of `list` as `document` writes them.
pub fn cut_slots(document: &Vec<char>, list: &Vec<Fence>) -> (r: Vec<String>)
    requires
        in_order(outer_ranges(fences_view(list@)), document@.len()),
    ensures
        crate::text::texts(r@) == written_slots(document@, outer_ranges(fences_view(list@))),
{
    let ghost ranges = outer_ranges(fences_view(list@));
    let mut slots: Vec<String> = Vec::new();
    let mut k: usize = 0;
    while k < list.len()
        invariant
            k <= list.len(),
            ranges == outer_ranges(fences_view(list@)),
            ranges.len() == list@.len(),
            in_order(ranges, document@.len()),
            slots@.len() == k,
            forall|i: int| 0 <= i < k ==> (#[trigger] slots@[i])@ == ranges[i].of(document@),
        decreases list.len() - k,
    {
        let range = list[k].outer_range();
        assert(ranges[k as int] == range);
        assert(ranges[k as int].fits(document@.len()));
        slots.push(string_of(document, range.start, range.end));
        k += 1;
    }
    assert(crate::text::texts(slots@) =~= written_slots(document@, ranges));
    slots
}

/// The document that holds the texts `gaps` with the slots between them.
pub fn assemble(gaps: &Vec<Vec<char>>, slots: &Vec<String>) -> (r: String)
    requires
        gaps@.len() == slots@.len() + 1,
    ensures
        r@ == assembled(seqs(gaps@), crate::text::texts(slots@)),
{
    let mut out: Vec<char> = Vec::new();
    let mut k: usize = 0;
    while k < slots.len()
        invariant
            k <= slots.len(),
            gaps@.len() == slots@.len() + 1,
            out@ == assembled_upto(seqs(gaps@), crate::text::texts(slots@), k as int),
        decreases slots.len() - k,
    {
        push_all(&mut out, &gaps[k]);
        push_str(&mut out, slots[k].as_str());
        k += 1;
    }
    push_all(&mut out, &gaps[slots.len()]);
    string_from(&out)
}

/// Once a fence has failed, the fault stays whatever fences follow.
pub proof fn lemma_fault_stays(
    doc: Seq<char>,
    list: Seq<FenceModel>,
    environment: Environment,
    order: Seq<int>,
    j: int,
    n: int,
)
    requires
        0 <= j <= n,
        slots_after(doc, list, environment, order, j) is Err,
    ensures
        slots_after(doc, list, environment, order, n) == slots_after(
            doc,
            list,
            environment,
            order,
            j,
        ),
    decreases n - j,
{
    if j < n {
        lemma_fault_stays(doc, list, environment, order, j, n - 1);
    }
}

/// Running fences changes no slot but those of the fences that ran, and leaves
/// as many slots as there are fences.
pub proof fn lemma_slots_after(
    doc: Seq<char>,
    list: Seq<FenceModel>,
    environment: Environment,
    order: Seq<int>,
    j: int,
)
    requires
        0 <= j <= order.len(),
        forall|p: int| 0 <= p < order.len() ==> 0 <= #[trigger] order[p] < list.len(),
    ensures
        slots_after(doc, list, environment, order, j) matches Ok(slots) ==> {
            &&& slots.len() == list.len()
            &&& forall|i: int|
                0 <= i < list.len() && !order.take(j).contains(i) ==> #[trigger] slots[i]
                    == list[i].outer().of(doc)
        },
    decreases j,
{
    if j > 0 {
        lemma_slots_after(doc, list, environment, order, j - 1);
        match slots_after(doc, list, environment, order, j) {
            Ok(slots) => {
                let before = slots_after(doc, list, environment, order, j - 1)->Ok_0;
                assert forall|i: int|
                    0 <= i < list.len() && !order.take(j).contains(i) implies #[trigger] slots[i]
                    == list[i].outer().of(doc) by {
                    assert(order.take(j)[j - 1] == order[j - 1]);
                    if order.take(j - 1).contains(i) {
                        let p = choose|p: int|
                            0 <= p < order.take(j - 1).len() && #[trigger] order.take(j - 1)[p]
                                == i;
                        assert(order.take(j)[p] == i);
                    }
                }
            },
            Err(_) => {},
        }
    } else {
        assert(written_slots(doc, outer_ranges(list)).len() == list.len());
    }
}

/// If the first `j` fences ran without a fault, so did the first `p` of them.
pub proof fn lemma_ran_before(
    doc: Seq<char>,
    list: Seq<FenceModel>,
    environment: Environment,
    order: Seq<int>,
    p: int,
    j: int,
)
    requires
        0 <= p <= j,
        slots_after(doc, list, environment, order, j) is Ok,
    ensures
        slots_after(doc, list, environment, order, p) is Ok,
    decreases j - p,
{
    if p < j {
        lemma_ran_before(doc, list, environment, order, p, j - 1);
    }
}

/// What a fence generated stays in its slot while the fences after it run.
pub proof fn lemma_slot_stays(
    doc: Seq<char>,
    list: Seq<FenceModel>,
    environment: Environment,
    order: Seq<int>,
    p: int,
    j: int,
)
    requires
        0 <= p < j <= order.len(),
        forall|q: int| 0 <= q < order.len() ==> 0 <= #[trigger] order[q] < list.len(),
        forall|a: int, b: int| 0 <= a < b < order.len() ==> #[trigger] order[a] != #[trigger] order[b],
        slots_after(doc, list, environment, order, j) is Ok,
    ensures
        slots_after(doc, list, environment, order, p) matches Ok(before) && list[order[p]].replacement(
            assembled(gap_texts(doc, outer_ranges(list)), before),
            environment,
        ) == Ok::<_, FenceFault>(
            slots_after(doc, list, environment, order, j)->Ok_0[order[p]],
        ),
    decreases j - p,
{
    lemma_ran_before(doc, list, environment, order, p, j);
    lemma_ran_before(doc, list, environment, order, p + 1, j);
    lemma_slots_after(doc, list, environment, order, p);
    if p + 1 < j {
        lemma_slot_stays(doc, list, environment, order, p, j - 1);
        lemma_slots_after(doc, list, environment, order, j - 1);
        assert(order[p] != order[j - 1]);
    }
}

/// When a table of contents runs, every fence that imports documentation has
/// run: its slot holds what it imports.
pub proof fn lemma_imports_run_first(
    doc: Seq<char>,
    list: Seq<FenceModel>,
    environment: Environment,
    j: int,
    i: int,
)
    requires
        0 <= j < list.len(),
        0 <= i < list.len(),
        list[execution_order(ranks(list))[j]] is Toc,
        list[i] is RustDoc,
        slots_after(doc, list, environment, execution_order(ranks(list)), j) is Ok,
    ensures
        list[i] matches FenceModel::RustDoc { request, outer } && crate::fence::rustdoc::import_text(
            request,
            environment,
            outer.start as nat,
        ) == Ok::<_, FenceFault>(
            slots_after(doc, list, environment, execution_order(ranks(list)), j)->Ok_0[i],
        ),
{
    let all = ranks(list);
    let order = execution_order(all);
    lemma_execution_order(all, all.len() as int);
    assert(order.contains(i));
    let p = choose|p: int| 0 <= p < order.len() && order[p] == i;
    assert(all[i] == list[i].rank());
    assert(all[order[j]] == list[order[j]].rank());
    if p > j {
        assert(runs_before(all, order[j], order[p]));
    }
    assert(p < j);
    assert forall|a: int, b: int| 0 <= a < b < order.len() implies #[trigger] order[a]
        != #[trigger] order[b] by {
        assert(runs_before(all, order[a], order[b]));
    }
    lemma_slot_stays(doc, list, environment, order, p, j);
}

/// A document without fences is left as it is.
pub proof fn lemma_no_fences(doc: Seq<char>, environment: Environment)
    requires
        crate::fence::fences(doc) == Ok::<_, FenceFault>(Seq::<FenceModel>::empty()),
    ensures
        processed(doc, environment) == Ok::<_, FenceFault>(doc),
{
    let list = Seq::<FenceModel>::empty();
    let order = execution_order(ranks(list));
    assert(order =~= Seq::<int>::empty());
    lemma_written_document(doc, outer_ranges(list), 0);
}

} // verus!
