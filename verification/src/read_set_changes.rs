//! What is found of threads that are built again: whether each of them reads what it read
//! before, and what it means for an edit where one does not.

use vstd::prelude::*;
use vstd::string::*;

use crate::edit::{EditOperationModel, ReadFact, ReadFactModel, ThreadIrModel, TransactionModel};
use crate::error::ErrorCode;
use crate::order::{first_table, tables_of_the_same_records, Ordered, PartModel};
use crate::read_set::{
    any_text_changed, is_target_anchor, loses_target, read_line, read_lines, read_set_changed,
    reads_checked, reads_missing, semantic_reads, source_at, text_changed, threads_of,
};
use crate::text::found_is_first;

verus! {

/// Whether a thread read something besides the model of the project.
pub open spec fn reads(thread: ThreadIrModel, fact: ReadFactModel) -> bool {
    thread.read_set.contains(fact) && fact.kind != "PROJECT_MODEL"@
}

/// Whether two threads read the same.
pub open spec fn read_alike(a: ThreadIrModel, b: ThreadIrModel) -> bool {
    forall|fact: ReadFactModel| #[trigger] reads(a, fact) <==> reads(b, fact)
}

proof fn parts_tell_reads_apart()
    ensures
        forall|x: ReadFactModel, y: ReadFactModel| #[trigger]
            <ReadFact as Ordered>::parts(x) == #[trigger] <ReadFact as Ordered>::parts(y) ==> x
                == y,
{
    assert forall|x: ReadFactModel, y: ReadFactModel| #[trigger]
        <ReadFact as Ordered>::parts(x) == #[trigger] <ReadFact as Ordered>::parts(y) implies x
        == y by {
        let a = <ReadFact as Ordered>::parts(x);
        let b = <ReadFact as Ordered>::parts(y);
        assert(a[0] == PartModel::Text(x.kind) && b[0] == PartModel::Text(y.kind));
        assert(a[1] == PartModel::Text(x.key) && b[1] == PartModel::Text(y.key));
        assert(a[2] == PartModel::Text(x.hash) && b[2] == PartModel::Text(y.hash));
    }
}

proof fn reads_are_kept(thread: ThreadIrModel, fact: ReadFactModel)
    ensures
        thread.read_set.filter(|fact: ReadFactModel| fact.kind != "PROJECT_MODEL"@).contains(fact)
            == reads(thread, fact),
        semantic_reads(thread).contains(fact) == reads(thread, fact),
{
    let wanted = |fact: ReadFactModel| fact.kind != "PROJECT_MODEL"@;
    let kept = thread.read_set.filter(wanted);
    if kept.contains(fact) {
        thread.read_set.lemma_filter_contains_rev(wanted, fact);
        let k = choose|k: int| 0 <= k < kept.len() && kept[k] == fact;
        thread.read_set.lemma_filter_pred(wanted, k);
    }
    if reads(thread, fact) {
        let k = choose|k: int| 0 <= k < thread.read_set.len() && thread.read_set[k] == fact;
        thread.read_set.lemma_filter_contains(wanted, k);
    }
    parts_tell_reads_apart();
    tables_of_the_same_records::<ReadFact>(kept, kept);
    assert(kept.contains(fact) <==> first_table::<ReadFact>(kept).contains(fact));
}

proof fn alike_is_same(a: ThreadIrModel, b: ThreadIrModel)
    ensures
        read_alike(a, b) <==> semantic_reads(a) == semantic_reads(b),
{
    let wanted = |fact: ReadFactModel| fact.kind != "PROJECT_MODEL"@;
    let x = a.read_set.filter(wanted);
    let y = b.read_set.filter(wanted);
    if read_alike(a, b) {
        assert forall|fact: ReadFactModel| x.contains(fact) <==> #[trigger] y.contains(fact) by {
            reads_are_kept(a, fact);
            reads_are_kept(b, fact);
        }
        parts_tell_reads_apart();
        tables_of_the_same_records::<ReadFact>(x, y);
    }
    if semantic_reads(a) == semantic_reads(b) {
        assert forall|fact: ReadFactModel| #[trigger] reads(a, fact) <==> reads(b, fact) by {
            reads_are_kept(a, fact);
            reads_are_kept(b, fact);
        }
    }
}

/// Whether a text stands somewhere in a source.
pub open spec fn stands_in(text: Seq<char>, source: Seq<char>) -> bool {
    exists|k: int|
        0 <= k <= source.len() - text.len() && #[trigger] source.subrange(k, k + text.len())
            == text
}

/// Whether the text that an operation changes still stands in its file.
pub open spec fn finds_its_text(
    op: EditOperationModel,
    sources: Seq<Option<Seq<char>>>,
    i: int,
) -> bool {
    &&& op.target.str_at("fileId"@) is Some
    &&& op.target.str_at("sourceText"@) is Some
    &&& i < sources.len()
    &&& sources[i] is Some
    &&& stands_in(op.target.str_at("sourceText"@)->0, sources[i]->0)
}

/// Whether an operation changes a node of the source that a thread read, and does not read
/// any more.
pub open spec fn target_is_gone(
    op: EditOperationModel,
    before: ThreadIrModel,
    after: ThreadIrModel,
) -> bool {
    exists|fact: ReadFactModel| #[trigger]
        reads(before, fact) && !reads(after, fact) && fact.kind == "SOURCE_NODE"@
            && op.target.str_at("anchorId"@) == Some(fact.key)
}

/// Whether an edit cannot be made any more where a thread reads something else than before:
/// one of its operations does not find its text, or lost its target.
pub open spec fn is_in_conflict(
    t: TransactionModel,
    sources: Seq<Option<Seq<char>>>,
    before: ThreadIrModel,
    after: ThreadIrModel,
) -> bool {
    exists|i: int|
        0 <= i < t.edit.operations.len() && (!finds_its_text(
            #[trigger] t.edit.operations[i],
            sources,
            i,
        ) || target_is_gone(t.edit.operations[i], before, after))
}

/// Whether a line says that something was read by one thread and is not by another.
pub open spec fn tells_loss(
    line: Seq<char>,
    sign: Seq<char>,
    a: ThreadIrModel,
    b: ThreadIrModel,
) -> bool {
    exists|fact: ReadFactModel| #[trigger]
        reads(a, fact) && !reads(b, fact) && line == sign + fact.kind + " "@ + fact.key + " "@
            + fact.hash
}

proof fn missing_are_missing(a: ThreadIrModel, b: ThreadIrModel, fact: ReadFactModel)
    ensures
        reads_missing(semantic_reads(a), semantic_reads(b)).contains(fact) == (reads(a, fact)
            && !reads(b, fact)),
{
    let x = semantic_reads(a);
    let y = semantic_reads(b);
    let wanted = |fact: ReadFactModel| !y.contains(fact);
    reads_are_kept(a, fact);
    reads_are_kept(b, fact);
    let kept = x.filter(wanted);
    if kept.contains(fact) {
        x.lemma_filter_contains_rev(wanted, fact);
        let k = choose|k: int| 0 <= k < kept.len() && kept[k] == fact;
        x.lemma_filter_pred(wanted, k);
    }
    if x.contains(fact) && !y.contains(fact) {
        let k = choose|k: int| 0 <= k < x.len() && x[k] == fact;
        x.lemma_filter_contains(wanted, k);
    }
}

proof fn conflicts_are_told(
    t: TransactionModel,
    sources: Seq<Option<Seq<char>>>,
    a: ThreadIrModel,
    b: ThreadIrModel,
)
    ensures
        (any_text_changed(t.edit.operations, sources) || loses_target(
            reads_missing(semantic_reads(a), semantic_reads(b)),
            t.edit.operations,
        )) == is_in_conflict(t, sources, a, b),
{
    let ops = t.edit.operations;
    let gone = reads_missing(semantic_reads(a), semantic_reads(b));
    assert forall|i: int| 0 <= i < ops.len() implies text_changed(
        #[trigger] ops[i],
        source_at(sources, i),
    ) == !finds_its_text(ops[i], sources, i) by {
        if let Some(text) = ops[i].target.str_at("sourceText"@) {
            if let Some(source) = source_at(sources, i) {
                found_is_first(source, text);
            }
        }
    }
    if any_text_changed(ops, sources) {
        let i = choose|i: int|
            0 <= i < ops.len() && text_changed(#[trigger] ops[i], source_at(sources, i));
        assert(!finds_its_text(ops[i], sources, i));
    } else if loses_target(gone, ops) {
        let k = choose|k: int|
            0 <= k < gone.len() && (#[trigger] gone[k]).kind == "SOURCE_NODE"@ && is_target_anchor(
                ops,
                gone[k].key,
            );
        let i = choose|i: int|
            0 <= i < ops.len() && (#[trigger] ops[i]).target.str_at("anchorId"@) == Some(
                gone[k].key,
            );
        assert(gone.contains(gone[k]));
        missing_are_missing(a, b, gone[k]);
        assert(reads(a, gone[k]));
        assert(target_is_gone(ops[i], a, b));
    }
    if is_in_conflict(t, sources, a, b) {
        let i = choose|i: int|
            0 <= i < ops.len() && (!finds_its_text(#[trigger] ops[i], sources, i)
                || target_is_gone(ops[i], a, b));
        if finds_its_text(ops[i], sources, i) {
            let fact = choose|fact: ReadFactModel| #[trigger]
                reads(a, fact) && !reads(b, fact) && fact.kind == "SOURCE_NODE"@
                    && ops[i].target.str_at("anchorId"@) == Some(fact.key);
            missing_are_missing(a, b, fact);
            let k = choose|k: int| 0 <= k < gone.len() && gone[k] == fact;
            assert(is_target_anchor(ops, gone[k].key));
        } else {
            assert(text_changed(ops[i], source_at(sources, i)));
        }
    }
}

proof fn lines_are_told(sign: Seq<char>, a: ThreadIrModel, b: ThreadIrModel, k: int)
    requires
        0 <= k < read_lines(sign, reads_missing(semantic_reads(a), semantic_reads(b))).len(),
    ensures
        tells_loss(
            read_lines(sign, reads_missing(semantic_reads(a), semantic_reads(b)))[k],
            sign,
            a,
            b,
        ),
{
    let gone = reads_missing(semantic_reads(a), semantic_reads(b));
    assert(gone.contains(gone[k]));
    missing_are_missing(a, b, gone[k]);
    assert(reads(a, gone[k]));
    assert(read_lines(sign, gone)[k] == read_line(sign, gone[k]));
}

/// Whether an error is that of a thread that reads something else than before: a conflict
/// where the edit cannot be made any more, and otherwise a slice that has to be taken again.
/// It names the thread, and tells only of what it does not read any more or reads now.
pub open spec fn tells_of_change(
    e: crate::error::ErrorModel,
    t: TransactionModel,
    sources: Seq<Option<Seq<char>>>,
    before: ThreadIrModel,
    after: ThreadIrModel,
) -> bool {
    &&& !read_alike(before, after)
    &&& e.code == if is_in_conflict(t, sources, before, after) {
        ErrorCode::WwConflict
    } else {
        ErrorCode::StaleRequiresReslice
    }
    &&& e.evidence.len() > 0
    &&& e.evidence[0] == "requiredThreadId="@ + before.thread_id
    &&& forall|k: int|
        1 <= k < e.evidence.len() ==> tells_loss(#[trigger] e.evidence[k], "- "@, before, after)
            || tells_loss(e.evidence[k], "+ "@, after, before)
}

proof fn changes_are_told(
    t: TransactionModel,
    sources: Seq<Option<Seq<char>>>,
    a: ThreadIrModel,
    b: ThreadIrModel,
)
    requires
        !read_alike(a, b),
    ensures
        tells_of_change(
            read_set_changed(
                t,
                sources,
                semantic_reads(a),
                semantic_reads(b),
                Some(a.thread_id),
            ),
            t,
            sources,
            a,
            b,
        ),
{
    conflicts_are_told(t, sources, a, b);
    let e = read_set_changed(t, sources, semantic_reads(a), semantic_reads(b), Some(a.thread_id));
    let lost = read_lines("- "@, reads_missing(semantic_reads(a), semantic_reads(b)));
    let new = read_lines("+ "@, reads_missing(semantic_reads(b), semantic_reads(a)));
    assert forall|k: int| 1 <= k < e.evidence.len() implies tells_loss(
        #[trigger] e.evidence[k],
        "- "@,
        a,
        b,
    ) || tells_loss(e.evidence[k], "+ "@, b, a) by {
        if k - 1 < lost.len() {
            assert(e.evidence[k] == lost[k - 1]);
            lines_are_told("- "@, a, b, k - 1);
        } else {
            let j = k - 1 - lost.len();
            assert(e.evidence[k] == new[j]);
            lines_are_told("+ "@, b, a, j);
        }
    }
}

proof fn threads_are_compared(
    t: TransactionModel,
    sources: Seq<Option<Seq<char>>>,
    required: Seq<ThreadIrModel>,
    rebuilt: Seq<ThreadIrModel>,
    i: int,
)
    requires
        0 <= i,
    ensures
        match reads_checked(t, sources, required, rebuilt, i) {
            Ok(_) => forall|k: int|
                i <= k < required.len() && k < rebuilt.len() ==> read_alike(
                    #[trigger] required[k],
                    rebuilt[k],
                ),
            Err(e) => exists|k: int|
                i <= k < required.len() && k < rebuilt.len() && tells_of_change(
                    e,
                    t,
                    sources,
                    #[trigger] required[k],
                    rebuilt[k],
                ) && forall|j: int| i <= j < k ==> read_alike(#[trigger] required[j], rebuilt[j]),
        },
    decreases required.len() - i,
{
    if i < required.len() && i < rebuilt.len() {
        alike_is_same(required[i], rebuilt[i]);
        if semantic_reads(required[i]) == semantic_reads(rebuilt[i]) {
            threads_are_compared(t, sources, required, rebuilt, i + 1);
            if let Err(e) = reads_checked(t, sources, required, rebuilt, i + 1) {
                let k = choose|k: int|
                    i + 1 <= k < required.len() && k < rebuilt.len() && tells_of_change(
                        e,
                        t,
                        sources,
                        #[trigger] required[k],
                        rebuilt[k],
                    ) && forall|j: int|
                        i + 1 <= j < k ==> read_alike(#[trigger] required[j], rebuilt[j]);
                assert(tells_of_change(e, t, sources, required[k], rebuilt[k]));
            }
        } else {
            changes_are_told(t, sources, required[i], rebuilt[i]);
            assert(required[i] == required[i]);
        }
    }
}

/// Threads that are built again are accepted just where each of them reads what it read
/// before, besides the model of the project and in whatever order. The first that does not
/// decides: it is a conflict where an operation of the edit does not find its text or lost
/// its target, and otherwise the slice has to be taken again.
pub proof fn threads_read_what_they_read(
    t: TransactionModel,
    sources: Seq<Option<Seq<char>>>,
    required: Seq<ThreadIrModel>,
    rebuilt: Seq<ThreadIrModel>,
)
    requires
        t.required_threads.len() == 0 ==> required == seq![t.thread],
        t.required_threads.len() > 0 ==> required == t.required_threads,
    ensures
        match reads_checked(t, sources, threads_of(t), rebuilt, 0) {
            Ok(_) => forall|k: int|
                0 <= k < required.len() && k < rebuilt.len() ==> read_alike(
                    #[trigger] required[k],
                    rebuilt[k],
                ),
            Err(e) => exists|k: int|
                0 <= k < required.len() && k < rebuilt.len() && tells_of_change(
                    e,
                    t,
                    sources,
                    #[trigger] required[k],
                    rebuilt[k],
                ) && forall|j: int| 0 <= j < k ==> read_alike(#[trigger] required[j], rebuilt[j]),
        },
{
    assert(required == threads_of(t));
    threads_are_compared(t, sources, required, rebuilt, 0);
}

} // verus!
