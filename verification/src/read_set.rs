//! What transactions rest on: the threads that they need, and what these read.

use vstd::prelude::*;
use vstd::string::*;

use crate::canonical::{hash, json_digest};
use crate::edit::{
    EditOperation, EditOperationModel, ReadFact, ReadFactModel, Snapshot, SnapshotModel, ThreadIr,
    ThreadIrModel, Transaction, TransactionModel,
};
use crate::error::{failure, outcome, ClewError, ErrorCode, ErrorModel};
use crate::json::{Json, JsonModel};
use crate::model_input::{failed, member_or_null};
use crate::order;
use crate::order::Ordered;
use crate::record::Record;

use crate::text::{contains_text, found, joined, same_text};

verus! {

/// The threads that a transaction needs.
pub open spec fn threads_of(t: TransactionModel) -> Seq<ThreadIrModel> {
    if t.required_threads.len() == 0 {
        seq![t.thread]
    } else {
        t.required_threads
    }
}

/// The threads that a transaction needs: those that it names, or its own.
pub fn transaction_threads(t: &Transaction) -> (r: Vec<ThreadIr>)
    ensures
        r.deep_view() == threads_of(t.deep_view()),
{
    if t.required_threads.len() == 0 {
        let r = vec![t.thread.copied()];
        assert(r.deep_view() =~= seq![t.thread.deep_view()]);
        r
    } else {
        t.required_threads.copied()
    }
}

/// The digest of a thread.
#[verifier::opaque]
pub open spec fn thread_digest(t: ThreadIrModel) -> Seq<char> {
    json_digest(<ThreadIr as Record>::json(t))
}

fn digest_of_thread(t: &ThreadIr) -> (r: String)
    ensures
        r@ == thread_digest(t.deep_view()),
{
    proof {
        reveal(thread_digest);
    }
    hash(&t.to_json())
}

/// Whether a thread is one of a transaction.
pub open spec fn thread_agrees(t: TransactionModel, thread: ThreadIrModel) -> bool {
    thread.snapshot.base_revision == t.base_revision && thread.snapshot.project_model_hash
        == t.project_model_hash && thread.snapshot.compilation == t.thread.snapshot.compilation
        && thread.seed.str_at("symbol"@) is Some
}

/// The outcome for the threads of a transaction from one on.
pub open spec fn threads_checked(t: TransactionModel, threads: Seq<ThreadIrModel>, i: int) -> Result<
    (),
    ErrorModel,
>
    decreases threads.len() - i,
{
    if i < 0 || i >= threads.len() {
        Ok(())
    } else if !thread_agrees(t, threads[i]) {
        failed(
            ErrorCode::InvalidInput,
            "required transaction threads must share revision, project model, and compilation and have a symbol seed"@,
        )
    } else if exists|k: int| 0 <= k < i && (#[trigger] threads[k]).thread_id
        == threads[i].thread_id {
        failed(ErrorCode::InvalidInput, "required transaction thread IDs must be unique"@)
    } else {
        threads_checked(t, threads, i + 1)
    }
}

/// The outcome for the threads of a transaction: the first is its own, all are of its
/// revision, project model and compilation, and none is twice.
pub open spec fn required_threads_checked(t: TransactionModel) -> Result<(), ErrorModel> {
    if t.required_threads.len() > 0 && thread_digest(t.thread) != thread_digest(
        t.required_threads[0],
    ) {
        failed(
            ErrorCode::InvalidInput,
            "requiredThreads must begin with the exact primary thread"@,
        )
    } else {
        threads_checked(t, threads_of(t), 0)
    }
}

fn id_before(threads: &Vec<ThreadIr>, n: usize, id: &str) -> (r: bool)
    requires
        n <= threads@.len(),
    ensures
        r == exists|k: int| 0 <= k < n && (#[trigger] threads.deep_view()[k]).thread_id == id@,
{
    let ghost m = threads.deep_view();
    let mut i: usize = 0;
    while i < n
        invariant
            i <= n <= threads@.len(),
            m == threads.deep_view(),
            forall|k: int| 0 <= k < i ==> (#[trigger] m[k]).thread_id != id@,
        decreases n - i,
    {
        assert(m[i as int] == threads@[i as int].deep_view());
        if same_text(threads[i].thread_id.as_str(), id) {
            return true;
        }
        i = i + 1;
    }
    false
}

/// Checks the threads that a transaction needs.
pub fn validate_required_threads(t: &Transaction) -> (r: Result<(), ClewError>)
    ensures
        outcome(r) == required_threads_checked(t.deep_view()),
{
    if t.required_threads.len() > 0 {
        assert(t.deep_view().required_threads[0] == t.required_threads@[0].deep_view());
        if !digest_of_thread(&t.thread).same_as(&digest_of_thread(&t.required_threads[0])) {
            return Err(
                ClewError::new(
                    ErrorCode::InvalidInput,
                    "requiredThreads must begin with the exact primary thread",
                ),
            );
        }
    }
    let threads = transaction_threads(t);
    let ghost m = threads.deep_view();
    let ghost all = t.deep_view();
    let mut i: usize = 0;
    while i < threads.len()
        invariant
            i <= threads.len(),
            m == threads.deep_view(),
            all == t.deep_view(),
            m == threads_of(all),
            required_threads_checked(all) == threads_checked(all, m, i as int),
        decreases threads.len() - i,
    {
        assert(m[i as int] == threads@[i as int].deep_view());
        let thread = &threads[i];
        if !thread.snapshot.base_revision.same_as(&t.base_revision)
            || !thread.snapshot.project_model_hash.same_as(&t.project_model_hash)
            || !thread.snapshot.compilation.same_as(&t.thread.snapshot.compilation)
            || thread.seed.str_at("symbol").is_none() {
            return Err(
                ClewError::new(
                    ErrorCode::InvalidInput,
                    "required transaction threads must share revision, project model, and compilation and have a symbol seed",
                ),
            );
        }
        if id_before(&threads, i, thread.thread_id.as_str()) {
            return Err(
                ClewError::new(
                    ErrorCode::InvalidInput,
                    "required transaction thread IDs must be unique",
                ),
            );
        }
        i = i + 1;
    }
    Ok(())
}

/// What a thread read, besides the model of the project, in its order, each once.
pub open spec fn semantic_reads(thread: ThreadIrModel) -> Seq<ReadFactModel> {
    order::first_table::<ReadFact>(
        thread.read_set.filter(|fact: ReadFactModel| fact.kind != "PROJECT_MODEL"@),
    )
}

/// What a thread read, besides the model of the project.
pub fn semantic_read_set(thread: &ThreadIr) -> (r: Vec<ReadFact>)
    ensures
        r.deep_view() == semantic_reads(thread.deep_view()),
{
    let ghost m = thread.read_set.deep_view();
    let ghost wanted = |fact: ReadFactModel| fact.kind != "PROJECT_MODEL"@;
    let mut kept: Vec<ReadFact> = Vec::new();
    let mut i: usize = 0;
    proof {
        reveal(Seq::filter);
    }
    assert(kept.deep_view() =~= m.take(0).filter(wanted));
    while i < thread.read_set.len()
        invariant
            i <= thread.read_set.len(),
            m == thread.read_set.deep_view(),
            wanted == (|fact: ReadFactModel| fact.kind != "PROJECT_MODEL"@),
            kept.deep_view() == m.take(i as int).filter(wanted),
        decreases thread.read_set.len() - i,
    {
        assert(m[i as int] == thread.read_set@[i as int].deep_view());
        assert(m.take(i as int + 1).drop_last() =~= m.take(i as int));
        proof {
            reveal(Seq::filter);
        }
        if !same_text(thread.read_set[i].kind.as_str(), "PROJECT_MODEL") {
            let ghost before = kept.deep_view();
            kept.push(thread.read_set[i].copied());
            assert(kept.deep_view() =~= before.push(m[i as int]));
        }
        i = i + 1;
    }
    assert(m.take(m.len() as int) =~= m);
    order::table_of(&kept)
}

/// The facts of one list that are not in another.
pub open spec fn reads_missing(a: Seq<ReadFactModel>, b: Seq<ReadFactModel>) -> Seq<ReadFactModel> {
    a.filter(|fact: ReadFactModel| !b.contains(fact))
}

fn contains_read(facts: &Vec<ReadFact>, fact: &ReadFact) -> (r: bool)
    ensures
        r == facts.deep_view().contains(fact.deep_view()),
{
    let ghost m = facts.deep_view();
    let mut i: usize = 0;
    while i < facts.len()
        invariant
            i <= facts.len(),
            m == facts.deep_view(),
            forall|k: int| 0 <= k < i ==> #[trigger] m[k] != fact.deep_view(),
        decreases facts.len() - i,
    {
        assert(m[i as int] == facts@[i as int].deep_view());
        if facts[i].same_as(fact) {
            return true;
        }
        i = i + 1;
    }
    false
}

fn missing_reads(a: &Vec<ReadFact>, b: &Vec<ReadFact>) -> (r: Vec<ReadFact>)
    ensures
        r.deep_view() == reads_missing(a.deep_view(), b.deep_view()),
{
    let ghost m = a.deep_view();
    let ghost others = b.deep_view();
    let ghost wanted = |fact: ReadFactModel| !others.contains(fact);
    let mut kept: Vec<ReadFact> = Vec::new();
    let mut i: usize = 0;
    proof {
        reveal(Seq::filter);
    }
    assert(kept.deep_view() =~= m.take(0).filter(wanted));
    while i < a.len()
        invariant
            i <= a.len(),
            m == a.deep_view(),
            others == b.deep_view(),
            wanted == (|fact: ReadFactModel| !others.contains(fact)),
            kept.deep_view() == m.take(i as int).filter(wanted),
        decreases a.len() - i,
    {
        assert(m[i as int] == a@[i as int].deep_view());
        assert(m.take(i as int + 1).drop_last() =~= m.take(i as int));
        proof {
            reveal(Seq::filter);
        }
        if !contains_read(b, &a[i]) {
            let ghost before = kept.deep_view();
            kept.push(a[i].copied());
            assert(kept.deep_view() =~= before.push(m[i as int]));
        }
        i = i + 1;
    }
    assert(m.take(m.len() as int) =~= m);
    kept
}

/// The line that says that a fact was read, behind a sign.
pub open spec fn read_line(sign: Seq<char>, fact: ReadFactModel) -> Seq<char> {
    sign + fact.kind + " "@ + fact.key + " "@ + fact.hash
}

/// The lines for the first facts of a list, up to eight.
pub open spec fn read_lines(sign: Seq<char>, facts: Seq<ReadFactModel>) -> Seq<Seq<char>> {
    Seq::new(
        if facts.len() <= 8 {
            facts.len()
        } else {
            8
        },
        |i: int| read_line(sign, facts[i]),
    )
}

fn push_lines(evidence: &mut Vec<String>, sign: &str, facts: &Vec<ReadFact>)
    ensures
        final(evidence).deep_view() == old(evidence).deep_view() + read_lines(
            sign@,
            facts.deep_view(),
        ),
{
    let ghost start = evidence.deep_view();
    let ghost m = facts.deep_view();
    let ghost all = read_lines(sign@, m);
    let mut i: usize = 0;
    while i < facts.len() && i < 8
        invariant
            i <= facts.len(),
            i <= 8,
            m == facts.deep_view(),
            all == read_lines(sign@, m),
            evidence.deep_view() =~= start + all.take(i as int),
        decreases facts.len() - i,
    {
        assert(m[i as int] == facts@[i as int].deep_view());
        let mut line = sign.to_owned();
        line.append(facts[i].kind.as_str());
        line.append(" ");
        line.append(facts[i].key.as_str());
        line.append(" ");
        line.append(facts[i].hash.as_str());
        let ghost before = evidence.deep_view();
        evidence.push(line);
        assert(evidence.deep_view() =~= before.push(read_line(sign@, m[i as int])));
        i = i + 1;
    }
    assert(evidence.deep_view() =~= start + all);
}

/// Whether one of the operations changes an anchor.
pub open spec fn is_target_anchor(operations: Seq<EditOperationModel>, key: Seq<char>) -> bool {
    exists|i: int|
        0 <= i < operations.len() && (#[trigger] operations[i]).target.str_at("anchorId"@) == Some(
            key,
        )
}

/// Whether one of some facts is a node of the source that an operation changes.
pub open spec fn loses_target(
    facts: Seq<ReadFactModel>,
    operations: Seq<EditOperationModel>,
) -> bool {
    exists|i: int|
        0 <= i < facts.len() && (#[trigger] facts[i]).kind == "SOURCE_NODE"@ && is_target_anchor(
            operations,
            facts[i].key,
        )
}

fn target_anchor(operations: &Vec<EditOperation>, key: &str) -> (r: bool)
    ensures
        r == is_target_anchor(operations.deep_view(), key@),
{
    let ghost m = operations.deep_view();
    let mut i: usize = 0;
    while i < operations.len()
        invariant
            i <= operations.len(),
            m == operations.deep_view(),
            forall|k: int|
                0 <= k < i ==> (#[trigger] m[k]).target.str_at("anchorId"@) != Some(key@),
        decreases operations.len() - i,
    {
        assert(m[i as int] == operations@[i as int].deep_view());
        let same = match operations[i].target.str_at("anchorId") {
            Some(anchor) => same_text(anchor.as_str(), key),
            None => false,
        };
        if same {
            return true;
        }
        i = i + 1;
    }
    false
}

fn lost_target(facts: &Vec<ReadFact>, operations: &Vec<EditOperation>) -> (r: bool)
    ensures
        r == loses_target(facts.deep_view(), operations.deep_view()),
{
    let ghost m = facts.deep_view();
    let ghost o = operations.deep_view();
    let mut i: usize = 0;
    while i < facts.len()
        invariant
            i <= facts.len(),
            m == facts.deep_view(),
            o == operations.deep_view(),
            forall|k: int|
                0 <= k < i ==> !((#[trigger] m[k]).kind == "SOURCE_NODE"@ && is_target_anchor(
                    o,
                    m[k].key,
                )),
        decreases facts.len() - i,
    {
        assert(m[i as int] == facts@[i as int].deep_view());
        if same_text(facts[i].kind.as_str(), "SOURCE_NODE") && target_anchor(
            operations,
            facts[i].key.as_str(),
        ) {
            return true;
        }
        i = i + 1;
    }
    false
}

/// Whether the text that an operation changes is not in its file any more: it names no
/// file or no text, the file cannot be read, or the text is not in it.
pub open spec fn text_changed(op: EditOperationModel, source: Option<Seq<char>>) -> bool {
    op.target.str_at("fileId"@) is None || match op.target.str_at("sourceText"@) {
        None => true,
        Some(text) => match source {
            None => true,
            Some(source) => found(source, text) is None,
        },
    }
}

/// The source at a place, or none.
pub open spec fn source_at(sources: Seq<Option<Seq<char>>>, i: int) -> Option<Seq<char>> {
    if 0 <= i < sources.len() {
        sources[i]
    } else {
        None
    }
}

/// Whether the text that one of the operations changes is not in its file any more.
pub open spec fn any_text_changed(
    operations: Seq<EditOperationModel>,
    sources: Seq<Option<Seq<char>>>,
) -> bool {
    exists|i: int|
        0 <= i < operations.len() && text_changed(#[trigger] operations[i], source_at(sources, i))
}

fn changed_text(op: &EditOperation, source: Option<&String>) -> (r: bool)
    ensures
        r == text_changed(op.deep_view(), source.deep_view()),
{
    if op.target.str_at("fileId").is_none() {
        return true;
    }
    match op.target.str_at("sourceText") {
        None => true,
        Some(text) => match source {
            None => true,
            Some(source) => !contains_text(source.as_str(), text.as_str()),
        },
    }
}

fn any_changed_text(operations: &Vec<EditOperation>, sources: &Vec<Option<String>>) -> (r: bool)
    ensures
        r == any_text_changed(operations.deep_view(), sources.deep_view()),
{
    let ghost m = operations.deep_view();
    let ghost s = sources.deep_view();
    let mut i: usize = 0;
    while i < operations.len()
        invariant
            i <= operations.len(),
            m == operations.deep_view(),
            s == sources.deep_view(),
            forall|k: int| 0 <= k < i ==> !text_changed(#[trigger] m[k], source_at(s, k)),
        decreases operations.len() - i,
    {
        assert(m[i as int] == operations@[i as int].deep_view());
        let source = if i < sources.len() {
            assert(s[i as int] == sources@[i as int].deep_view());
            match &sources[i] {
                Some(text) => Some(text),
                None => None,
            }
        } else {
            None
        };
        if changed_text(&operations[i], source) {
            return true;
        }
        i = i + 1;
    }
    false
}

/// The error for what threads read when that changed: a conflict where the target of an
/// edit changed, and otherwise a slice that has to be taken again. It names the thread, or
/// says that all together changed, and shows some of what is not read any more and of what
/// is read now.
pub open spec fn read_set_changed(
    t: TransactionModel,
    sources: Seq<Option<Seq<char>>>,
    old_reads: Seq<ReadFactModel>,
    new_reads: Seq<ReadFactModel>,
    thread_id: Option<Seq<char>>,
) -> ErrorModel {
    let removed = reads_missing(old_reads, new_reads);
    let added = reads_missing(new_reads, old_reads);
    let conflict = any_text_changed(t.edit.operations, sources) || loses_target(
        removed,
        t.edit.operations,
    );
    ErrorModel {
        evidence: seq![
            match thread_id {
                Some(id) => "requiredThreadId="@ + id,
                None => "requiredThreadUnionChanged=true"@,
            },
        ] + read_lines("- "@, removed) + read_lines("+ "@, added),
        ..if conflict {
            failure(ErrorCode::WwConflict, "concurrent write changed the target anchor"@)
        } else {
            failure(ErrorCode::StaleRequiresReslice, "semantic ReadSet changed since slice"@)
        }
    }
}

fn read_set_change_error(
    t: &Transaction,
    sources: &Vec<Option<String>>,
    old_reads: &Vec<ReadFact>,
    new_reads: &Vec<ReadFact>,
    thread_id: Option<&String>,
) -> (r: ClewError)
    ensures
        r.deep_view() == read_set_changed(
            t.deep_view(),
            sources.deep_view(),
            old_reads.deep_view(),
            new_reads.deep_view(),
            thread_id.deep_view(),
        ),
{
    let removed = missing_reads(old_reads, new_reads);
    let added = missing_reads(new_reads, old_reads);
    let conflict = any_changed_text(&t.edit.operations, sources) || lost_target(
        &removed,
        &t.edit.operations,
    );
    let mut error = if conflict {
        ClewError::new(ErrorCode::WwConflict, "concurrent write changed the target anchor")
    } else {
        ClewError::new(ErrorCode::StaleRequiresReslice, "semantic ReadSet changed since slice")
    };
    let first = match thread_id {
        Some(id) => joined("requiredThreadId=", id.as_str()),
        None => "requiredThreadUnionChanged=true".to_owned(),
    };
    let mut evidence = vec![first];
    assert(evidence.deep_view() =~= seq![first@]);
    push_lines(&mut evidence, "- ", &removed);
    push_lines(&mut evidence, "+ ", &added);
    error.evidence = evidence;
    error
}

/// The outcome for what threads read before and read now, from one on: each reads the
/// same.
pub open spec fn reads_checked(
    t: TransactionModel,
    sources: Seq<Option<Seq<char>>>,
    required: Seq<ThreadIrModel>,
    rebuilt: Seq<ThreadIrModel>,
    i: int,
) -> Result<(), ErrorModel>
    decreases required.len() - i,
{
    if i < 0 || i >= required.len() || i >= rebuilt.len() {
        Ok(())
    } else if semantic_reads(required[i]) != semantic_reads(rebuilt[i]) {
        Err(
            read_set_changed(
                t,
                sources,
                semantic_reads(required[i]),
                semantic_reads(rebuilt[i]),
                Some(required[i].thread_id),
            ),
        )
    } else {
        reads_checked(t, sources, required, rebuilt, i + 1)
    }
}

/// Checks that the threads of a transaction read what they read before, from the threads
/// as they are built now, and the sources of the files of its operations. What all of them
/// read together is then the same too.
pub fn revalidate_semantic_read_set(
    t: &Transaction,
    sources: &Vec<Option<String>>,
    rebuilt: &Vec<ThreadIr>,
) -> (r: Result<(), ClewError>)
    ensures
        outcome(r) == reads_checked(
            t.deep_view(),
            sources.deep_view(),
            threads_of(t.deep_view()),
            rebuilt.deep_view(),
            0,
        ),
{
    let required = transaction_threads(t);
    let ghost all = t.deep_view();
    let ghost s = sources.deep_view();
    let ghost old_threads = required.deep_view();
    let ghost new_threads = rebuilt.deep_view();
    let mut i: usize = 0;
    while i < required.len() && i < rebuilt.len()
        invariant
            i <= required.len(),
            i <= rebuilt.len(),
            all == t.deep_view(),
            s == sources.deep_view(),
            old_threads == required.deep_view(),
            new_threads == rebuilt.deep_view(),
            old_threads == threads_of(all),
            reads_checked(all, s, old_threads, new_threads, 0) == reads_checked(
                all,
                s,
                old_threads,
                new_threads,
                i as int,
            ),
        decreases required.len() - i,
    {
        assert(old_threads[i as int] == required@[i as int].deep_view());
        assert(new_threads[i as int] == rebuilt@[i as int].deep_view());
        let old_reads = semantic_read_set(&required[i]);
        let new_reads = semantic_read_set(&rebuilt[i]);
        if !old_reads.same_as(&new_reads) {
            return Err(
                read_set_change_error(
                    t,
                    sources,
                    &old_reads,
                    &new_reads,
                    Some(&required[i].thread_id),
                ),
            );
        }
        i = i + 1;
    }
    Ok(())
}

/// A node of a graph: its identifier, and the anchor that it comes from.
pub struct GraphNode {
    pub id: String,
    pub anchor_id: Option<String>,
}

/// The model of a [`GraphNode`].
pub struct GraphNodeModel {
    pub id: Seq<char>,
    pub anchor_id: Option<Seq<char>>,
}

impl DeepView for GraphNode {
    type V = GraphNodeModel;

    open spec fn deep_view(&self) -> GraphNodeModel {
        GraphNodeModel { id: self.id.deep_view(), anchor_id: self.anchor_id.deep_view() }
    }
}

/// Whether one of some nodes has an identifier.
pub open spec fn has_node(nodes: Seq<GraphNodeModel>, id: Seq<char>) -> bool {
    exists|i: int| 0 <= i < nodes.len() && (#[trigger] nodes[i]).id == id
}

/// The first node from one on with an anchor, or with none.
pub open spec fn node_at(nodes: Seq<GraphNodeModel>, anchor: Option<Seq<char>>, i: int) -> Option<
    Seq<char>,
>
    decreases nodes.len() - i,
{
    if i < 0 || i >= nodes.len() {
        None
    } else if nodes[i].anchor_id == anchor {
        Some(nodes[i].id)
    } else {
        node_at(nodes, anchor, i + 1)
    }
}

/// The seed of a thread in a graph: the node that it was, where that is still there, or
/// else the first node of its anchor.
pub open spec fn seed_resolved(thread: ThreadIrModel, nodes: Seq<GraphNodeModel>) -> Result<
    Seq<char>,
    ErrorModel,
> {
    let anchor = member_or_null(thread.seed, "anchor"@).str_at("anchorId"@);
    let kept = match thread.seed.str_at("nodeId"@) {
        Some(id) => if has_node(nodes, id) {
            Some(id)
        } else {
            None
        },
        None => None,
    };
    match kept {
        Some(id) => Ok(id),
        None => match node_at(nodes, anchor, 0) {
            Some(id) => Ok(id),
            None => failed(ErrorCode::StaleRequiresReslice, "slice seed no longer resolves"@),
        },
    }
}

fn contains_node(nodes: &Vec<GraphNode>, id: &str) -> (r: bool)
    ensures
        r == has_node(nodes.deep_view(), id@),
{
    let ghost m = nodes.deep_view();
    let mut i: usize = 0;
    while i < nodes.len()
        invariant
            i <= nodes.len(),
            m == nodes.deep_view(),
            forall|k: int| 0 <= k < i ==> (#[trigger] m[k]).id != id@,
        decreases nodes.len() - i,
    {
        assert(m[i as int] == nodes@[i as int].deep_view());
        if same_text(nodes[i].id.as_str(), id) {
            return true;
        }
        i = i + 1;
    }
    false
}

/// Finds the seed of a thread in a graph.
pub fn resolve_seed(thread: &ThreadIr, nodes: &Vec<GraphNode>) -> (r: Result<String, ClewError>)
    ensures
        outcome(r) == seed_resolved(thread.deep_view(), nodes.deep_view()),
{
    match thread.seed.str_at("nodeId") {
        Some(id) => {
            if contains_node(nodes, id.as_str()) {
                return Ok(id.clone());
            }
        },
        None => {},
    }
    let anchor: Option<String> = match thread.seed.get("anchor") {
        Some(anchor) => match anchor.str_at("anchorId") {
            Some(id) => Some(id.clone()),
            None => None,
        },
        None => None,
    };
    let ghost m = nodes.deep_view();
    let ghost a = anchor.deep_view();
    assert(a == member_or_null(thread.deep_view().seed, "anchor"@).str_at("anchorId"@));
    let mut i: usize = 0;
    while i < nodes.len()
        invariant
            i <= nodes.len(),
            m == nodes.deep_view(),
            a == anchor.deep_view(),
            a == member_or_null(thread.deep_view().seed, "anchor"@).str_at("anchorId"@),
            node_at(m, a, 0) == node_at(m, a, i as int),
            match thread.deep_view().seed.str_at("nodeId"@) {
                Some(id) => !has_node(m, id),
                None => true,
            },
        decreases nodes.len() - i,
    {
        assert(m[i as int] == nodes@[i as int].deep_view());
        if nodes[i].anchor_id.same_as(&anchor) {
            return Ok(nodes[i].id.clone());
        }
        i = i + 1;
    }
    Err(ClewError::new(ErrorCode::StaleRequiresReslice, "slice seed no longer resolves"))
}

/// The symbol of the seed of a thread.
pub open spec fn seed_symbol_of(thread: ThreadIrModel) -> Result<Seq<char>, ErrorModel> {
    match thread.seed.str_at("symbol"@) {
        Some(symbol) => Ok(symbol),
        None => failed(ErrorCode::StaleRequiresReslice, "thread seed has no owner symbol"@),
    }
}

/// The symbol of the seed of a thread, whose graph is built again.
pub fn seed_symbol(thread: &ThreadIr) -> (r: Result<String, ClewError>)
    ensures
        outcome(r) == seed_symbol_of(thread.deep_view()),
{
    match thread.seed.str_at("symbol") {
        Some(symbol) => Ok(symbol.clone()),
        None => Err(
            ClewError::new(ErrorCode::StaleRequiresReslice, "thread seed has no owner symbol"),
        ),
    }
}

/// What a thread is taken of again, at a revision of a project.
pub open spec fn snapshot_rebuilt(
    thread: ThreadIrModel,
    project: JsonModel,
    current: Seq<char>,
) -> SnapshotModel {
    SnapshotModel {
        base_revision: current,
        project_model_hash: match project.str_at("projectModelHash"@) {
            Some(digest) => digest,
            None => Seq::empty(),
        },
        ..thread.snapshot
    }
}

/// What a thread is taken of again.
pub fn rebuild_snapshot(thread: &ThreadIr, project: &Json, current: &str) -> (r: Snapshot)
    ensures
        r.deep_view() == snapshot_rebuilt(thread.deep_view(), project.deep_view(), current@),
{
    let mut r = thread.snapshot.copied();
    r.base_revision = current.to_owned();
    r.project_model_hash = match project.str_at("projectModelHash") {
        Some(digest) => digest.clone(),
        None => {
            let nothing = String::new();
            assert(nothing@ =~= Seq::empty());
            nothing
        },
    };
    r
}

/// Where each thread reads what it read before, so do all of them together.
pub proof fn unchanged_reads_have_unchanged_union(
    t: TransactionModel,
    sources: Seq<Option<Seq<char>>>,
    required: Seq<ThreadIrModel>,
    rebuilt: Seq<ThreadIrModel>,
    fact: ReadFactModel,
)
    requires
        required.len() == rebuilt.len(),
        reads_checked(t, sources, required, rebuilt, 0) is Ok,
    ensures
        (exists|i: int|
            0 <= i < required.len() && semantic_reads(#[trigger] required[i]).contains(fact))
            <==> (exists|i: int|
            0 <= i < rebuilt.len() && semantic_reads(#[trigger] rebuilt[i]).contains(fact)),
{
    unchanged_from(t, sources, required, rebuilt, 0);
    if exists|i: int|
        0 <= i < required.len() && semantic_reads(#[trigger] required[i]).contains(fact) {
        let i = choose|i: int|
            0 <= i < required.len() && semantic_reads(#[trigger] required[i]).contains(fact);
        assert(semantic_reads(rebuilt[i]).contains(fact));
    }
    if exists|i: int|
        0 <= i < rebuilt.len() && semantic_reads(#[trigger] rebuilt[i]).contains(fact) {
        let i = choose|i: int|
            0 <= i < rebuilt.len() && semantic_reads(#[trigger] rebuilt[i]).contains(fact);
        assert(semantic_reads(required[i]).contains(fact));
    }
}

proof fn unchanged_from(
    t: TransactionModel,
    sources: Seq<Option<Seq<char>>>,
    required: Seq<ThreadIrModel>,
    rebuilt: Seq<ThreadIrModel>,
    i: int,
)
    requires
        0 <= i,
        required.len() == rebuilt.len(),
        reads_checked(t, sources, required, rebuilt, i) is Ok,
    ensures
        forall|k: int|
            i <= k < required.len() ==> semantic_reads(#[trigger] required[k]) == semantic_reads(
                rebuilt[k],
            ),
    decreases required.len() - i,
{
    if i < required.len() {
        unchanged_from(t, sources, required, rebuilt, i + 1);
    }
}

} // verus!
