//! Commits of transactions: from an edit to a commit that a reference and the index of the
//! repository name, asking for one thing after another.

use vstd::prelude::*;
use vstd::string::*;

use crate::canonical::{hash, json_digest};
use crate::edit::{
    BuildSystem, EditIr, EditIrModel, ExpectedWriteFact, PreviewReport, PreviewReportModel,
    SnapshotModel, ThreadIr, ThreadIrModel, Transaction, TransactionModel, WriteFact,
    WriteFactModel,
};
use crate::error::{failure, outcome, ClewError, ErrorCode, ErrorModel};
use crate::history::{
    commit_message, find_matching_transaction_commit, matching_commit, write_commit_message,
};
use crate::json::{member_models, model_of_object, Json, JsonModel};
use crate::model_input::{between, framed, project_model_transition_evidence, transition_evidence};
use crate::read_set::{
    reads_checked, required_threads_checked, revalidate_semantic_read_set, threads_of,
    validate_required_threads,
};
use crate::record::Record;
use crate::text::{has_prefix, joined, same_text, starts_with};
use crate::transaction::{check_path, path_checked};

verus! {

/// What a commit waits for.
#[derive(Clone, Copy, Debug, PartialEq, Eq, Structural)]
pub enum CommitPhase {
    Begin,
    Target,
    Index,
    History,
    Revision,
    PublishedIndex,
    RecoveryWorktree,
    RecoveryPrepare,
    RecoveryStage,
    RecoveryPublish,
    RecordExisting,
    RecordRebasing,
    ReplayWorktree,
    ReplayPrepare,
    ReplayModel,
    ReplayReads,
    Preview,
    ReplayPreview,
    RecordStale,
    RecordValidated,
    RecordNothing,
    CandidateWorktree,
    CandidatePrepare,
    Files,
    Build,
    Candidate,
    RecordCandidate,
    LiveModel,
    CandidateModel,
    CandidateIndex,
    Stage,
    Reference,
    Publish,
    Rollback,
    Synchronize,
    RecordCommitted,
    Done,
}

impl DeepView for CommitPhase {
    type V = CommitPhase;

    open spec fn deep_view(&self) -> CommitPhase {
        *self
    }
}

/// How far a commit has come.
pub struct CommitState {
    pub transaction: Transaction,
    pub allowed: bool,
    pub phase: CommitPhase,
    pub target_ref: String,
    pub current: String,
    pub clean: bool,
    pub base_index: String,
    pub edit_hash: String,
    pub existing: String,
    pub candidates: Json,
    pub writes: Vec<WriteFact>,
    pub validation_ms: u64,
    pub candidate: String,
    pub live_model: Json,
    pub candidate_model: Json,
    pub transition: Option<Json>,
    pub index: String,
    pub invalidations: Vec<String>,
    pub failure: Option<ClewError>,
}

/// The model of a [`CommitState`].
pub struct CommitStateModel {
    pub transaction: TransactionModel,
    pub allowed: bool,
    pub phase: CommitPhase,
    pub target_ref: Seq<char>,
    pub current: Seq<char>,
    pub clean: bool,
    pub base_index: Seq<char>,
    pub edit_hash: Seq<char>,
    pub existing: Seq<char>,
    pub candidates: JsonModel,
    pub writes: Seq<WriteFactModel>,
    pub validation_ms: u64,
    pub candidate: Seq<char>,
    pub live_model: JsonModel,
    pub candidate_model: JsonModel,
    pub transition: Option<JsonModel>,
    pub index: Seq<char>,
    pub invalidations: Seq<Seq<char>>,
    pub failure: Option<ErrorModel>,
}

impl DeepView for CommitState {
    type V = CommitStateModel;

    open spec fn deep_view(&self) -> CommitStateModel {
        CommitStateModel {
            transaction: self.transaction.deep_view(),
            allowed: self.allowed.deep_view(),
            phase: self.phase.deep_view(),
            target_ref: self.target_ref.deep_view(),
            current: self.current.deep_view(),
            clean: self.clean.deep_view(),
            base_index: self.base_index.deep_view(),
            edit_hash: self.edit_hash.deep_view(),
            existing: self.existing.deep_view(),
            candidates: self.candidates.deep_view(),
            writes: self.writes.deep_view(),
            validation_ms: self.validation_ms.deep_view(),
            candidate: self.candidate.deep_view(),
            live_model: self.live_model.deep_view(),
            candidate_model: self.candidate_model.deep_view(),
            transition: self.transition.deep_view(),
            index: self.index.deep_view(),
            invalidations: self.invalidations.deep_view(),
            failure: self.failure.deep_view(),
        }
    }
}

/// What a commit is told.
pub enum CommitEvent {
    Begin { target_ref: String },
    Target { current: String, clean: bool },
    Index { snapshot: Option<String> },
    History(String),
    Revision(Option<String>),
    PublishedIndex { snapshot: Option<String>, invalidations: Vec<String> },
    WorktreeAdded,
    Prepared,
    Model(Json),
    Rebuilt { threads: Vec<ThreadIr>, sources: Vec<Option<String>> },
    Previewed(PreviewReport),
    Written,
    Built { compile_ms: u64, test_ms: u64 },
    Candidate(String),
    CandidateModel { model: Json, before_stable: String, after_stable: String },
    Indexed { project_model_hash: String },
    Staged,
    RefUpdated,
    IndexPublished { snapshot: String, invalidations: Vec<String> },
    Synchronized,
    Recorded,
    Unrecorded(ClewError),
    Failed(ClewError),
}

/// The model of a [`CommitEvent`].
pub enum CommitEventModel {
    Begin { target_ref: Seq<char> },
    Target { current: Seq<char>, clean: bool },
    Index { snapshot: Option<Seq<char>> },
    History(Seq<char>),
    Revision(Option<Seq<char>>),
    PublishedIndex { snapshot: Option<Seq<char>>, invalidations: Seq<Seq<char>> },
    WorktreeAdded,
    Prepared,
    Model(JsonModel),
    Rebuilt { threads: Seq<ThreadIrModel>, sources: Seq<Option<Seq<char>>> },
    Previewed(PreviewReportModel),
    Written,
    Built { compile_ms: u64, test_ms: u64 },
    Candidate(Seq<char>),
    CandidateModel { model: JsonModel, before_stable: Seq<char>, after_stable: Seq<char> },
    Indexed { project_model_hash: Seq<char> },
    Staged,
    RefUpdated,
    IndexPublished { snapshot: Seq<char>, invalidations: Seq<Seq<char>> },
    Synchronized,
    Recorded,
    Unrecorded(ErrorModel),
    Failed(ErrorModel),
}

impl DeepView for CommitEvent {
    type V = CommitEventModel;

    open spec fn deep_view(&self) -> CommitEventModel {
        match self {
            CommitEvent::Begin { target_ref } => CommitEventModel::Begin {
                target_ref: target_ref.deep_view(),
            },
            CommitEvent::Target { current, clean } => CommitEventModel::Target {
                current: current.deep_view(),
                clean: clean.deep_view(),
            },
            CommitEvent::Index { snapshot } => CommitEventModel::Index {
                snapshot: snapshot.deep_view(),
            },
            CommitEvent::History(x) => CommitEventModel::History(x.deep_view()),
            CommitEvent::Revision(x) => CommitEventModel::Revision(x.deep_view()),
            CommitEvent::PublishedIndex { snapshot, invalidations } => CommitEventModel::PublishedIndex {
                snapshot: snapshot.deep_view(),
                invalidations: invalidations.deep_view(),
            },
            CommitEvent::WorktreeAdded => CommitEventModel::WorktreeAdded,
            CommitEvent::Prepared => CommitEventModel::Prepared,
            CommitEvent::Model(x) => CommitEventModel::Model(x.deep_view()),
            CommitEvent::Rebuilt { threads, sources } => CommitEventModel::Rebuilt {
                threads: threads.deep_view(),
                sources: sources.deep_view(),
            },
            CommitEvent::Previewed(x) => CommitEventModel::Previewed(x.deep_view()),
            CommitEvent::Written => CommitEventModel::Written,
            CommitEvent::Built { compile_ms, test_ms } => CommitEventModel::Built {
                compile_ms: compile_ms.deep_view(),
                test_ms: test_ms.deep_view(),
            },
            CommitEvent::Candidate(x) => CommitEventModel::Candidate(x.deep_view()),
            CommitEvent::CandidateModel { model, before_stable, after_stable } => CommitEventModel::CandidateModel {
                model: model.deep_view(),
                before_stable: before_stable.deep_view(),
                after_stable: after_stable.deep_view(),
            },
            CommitEvent::Indexed { project_model_hash } => CommitEventModel::Indexed {
                project_model_hash: project_model_hash.deep_view(),
            },
            CommitEvent::Staged => CommitEventModel::Staged,
            CommitEvent::RefUpdated => CommitEventModel::RefUpdated,
            CommitEvent::IndexPublished { snapshot, invalidations } => CommitEventModel::IndexPublished {
                snapshot: snapshot.deep_view(),
                invalidations: invalidations.deep_view(),
            },
            CommitEvent::Synchronized => CommitEventModel::Synchronized,
            CommitEvent::Recorded => CommitEventModel::Recorded,
            CommitEvent::Unrecorded(x) => CommitEventModel::Unrecorded(x.deep_view()),
            CommitEvent::Failed(x) => CommitEventModel::Failed(x.deep_view()),
        }
    }
}

/// What a commit asks for. A worktree that is spoken of is the one that was added last.
pub enum CommitAction {
    ReadTarget { reference: String },
    ReadIndex { compilation: String },
    ScanHistory { reference: String },
    ReadRevision { compilation: String },
    ReadPublished { compilation: String },
    AddWorktree { revision: String },
    Prepare { system: BuildSystem },
    StageIndex { revision: String, compilation: String },
    PublishIndex,
    Record { evidence: String },
    OpenProject { compilation: String, in_worktree: bool },
    RebuildThreads { project: Json, revision: String },
    Preview { thread: ThreadIr, edit: EditIr, in_worktree: bool },
    WriteFiles(Json),
    Build { system: BuildSystem, launcher: String, compile_task: String, tests: Vec<String> },
    CommitFiles { files: Vec<String>, message: String },
    IndexFiles { compilation: String },
    UpdateRef { reference: String, to: String, from: String },
    Synchronize { revision: String },
    Finish(Json),
}

/// The model of a [`CommitAction`].
pub enum CommitActionModel {
    ReadTarget { reference: Seq<char> },
    ReadIndex { compilation: Seq<char> },
    ScanHistory { reference: Seq<char> },
    ReadRevision { compilation: Seq<char> },
    ReadPublished { compilation: Seq<char> },
    AddWorktree { revision: Seq<char> },
    Prepare { system: BuildSystem },
    StageIndex { revision: Seq<char>, compilation: Seq<char> },
    PublishIndex,
    Record { evidence: Seq<char> },
    OpenProject { compilation: Seq<char>, in_worktree: bool },
    RebuildThreads { project: JsonModel, revision: Seq<char> },
    Preview { thread: ThreadIrModel, edit: EditIrModel, in_worktree: bool },
    WriteFiles(JsonModel),
    Build { system: BuildSystem, launcher: Seq<char>, compile_task: Seq<char>, tests: Seq<Seq<char>> },
    CommitFiles { files: Seq<Seq<char>>, message: Seq<char> },
    IndexFiles { compilation: Seq<char> },
    UpdateRef { reference: Seq<char>, to: Seq<char>, from: Seq<char> },
    Synchronize { revision: Seq<char> },
    Finish(JsonModel),
}

impl DeepView for CommitAction {
    type V = CommitActionModel;

    open spec fn deep_view(&self) -> CommitActionModel {
        match self {
            CommitAction::ReadTarget { reference } => CommitActionModel::ReadTarget {
                reference: reference.deep_view(),
            },
            CommitAction::ReadIndex { compilation } => CommitActionModel::ReadIndex {
                compilation: compilation.deep_view(),
            },
            CommitAction::ScanHistory { reference } => CommitActionModel::ScanHistory {
                reference: reference.deep_view(),
            },
            CommitAction::ReadRevision { compilation } => CommitActionModel::ReadRevision {
                compilation: compilation.deep_view(),
            },
            CommitAction::ReadPublished { compilation } => CommitActionModel::ReadPublished {
                compilation: compilation.deep_view(),
            },
            CommitAction::AddWorktree { revision } => CommitActionModel::AddWorktree {
                revision: revision.deep_view(),
            },
            CommitAction::Prepare { system } => CommitActionModel::Prepare {
                system: system.deep_view(),
            },
            CommitAction::StageIndex { revision, compilation } => CommitActionModel::StageIndex {
                revision: revision.deep_view(),
                compilation: compilation.deep_view(),
            },
            CommitAction::PublishIndex => CommitActionModel::PublishIndex,
            CommitAction::Record { evidence } => CommitActionModel::Record {
                evidence: evidence.deep_view(),
            },
            CommitAction::OpenProject { compilation, in_worktree } => CommitActionModel::OpenProject {
                compilation: compilation.deep_view(),
                in_worktree: in_worktree.deep_view(),
            },
            CommitAction::RebuildThreads { project, revision } => CommitActionModel::RebuildThreads {
                project: project.deep_view(),
                revision: revision.deep_view(),
            },
            CommitAction::Preview { thread, edit, in_worktree } => CommitActionModel::Preview {
                thread: thread.deep_view(),
                edit: edit.deep_view(),
                in_worktree: in_worktree.deep_view(),
            },
            CommitAction::WriteFiles(x) => CommitActionModel::WriteFiles(x.deep_view()),
            CommitAction::Build { system, launcher, compile_task, tests } => CommitActionModel::Build {
                system: system.deep_view(),
                launcher: launcher.deep_view(),
                compile_task: compile_task.deep_view(),
                tests: tests.deep_view(),
            },
            CommitAction::CommitFiles { files, message } => CommitActionModel::CommitFiles {
                files: files.deep_view(),
                message: message.deep_view(),
            },
            CommitAction::IndexFiles { compilation } => CommitActionModel::IndexFiles {
                compilation: compilation.deep_view(),
            },
            CommitAction::UpdateRef { reference, to, from } => CommitActionModel::UpdateRef {
                reference: reference.deep_view(),
                to: to.deep_view(),
                from: from.deep_view(),
            },
            CommitAction::Synchronize { revision } => CommitActionModel::Synchronize {
                revision: revision.deep_view(),
            },
            CommitAction::Finish(x) => CommitActionModel::Finish(x.deep_view()),
        }
    }
}

/// A step of a commit: how far it has come, and what it asks for next or why it ends.
pub type CommitStep = (CommitStateModel, Result<CommitActionModel, ErrorModel>);

/// The step to a phase with something to ask for.
pub open spec fn asks(st: CommitStateModel, phase: CommitPhase, action: CommitActionModel) -> CommitStep {
    (CommitStateModel { phase, ..st }, Ok(action))
}

/// The step that ends with an error.
pub open spec fn fails(st: CommitStateModel, error: ErrorModel) -> CommitStep {
    (CommitStateModel { phase: CommitPhase::Done, ..st }, Err(error))
}

/// The step that records a transaction.
pub open spec fn records(st: CommitStateModel, phase: CommitPhase, evidence: Seq<char>) -> CommitStep {
    asks(st, phase, CommitActionModel::Record { evidence })
}

/// The step that ends with a report.
pub open spec fn finishes(st: CommitStateModel, report: JsonModel) -> CommitStep {
    asks(st, CommitPhase::Done, CommitActionModel::Finish(report))
}

/// The step where something was told that was not asked for, or could not be had.
pub open spec fn stops(st: CommitStateModel, event: CommitEventModel) -> CommitStep {
    match event {
        CommitEventModel::Failed(error) => fails(st, error),
        CommitEventModel::Unrecorded(error) => fails(st, error),
        _ => fails(st, failure(ErrorCode::Internal, "commit was told what it did not ask for"@)),
    }
}

fn ask(st: CommitState, phase: CommitPhase, action: CommitAction) -> (r: (
    CommitState,
    Result<CommitAction, ClewError>,
))
    ensures
        (r.0.deep_view(), outcome(r.1)) == asks(st.deep_view(), phase, action.deep_view()),
{
    let mut st = st;
    st.phase = phase;
    (st, Ok(action))
}

fn fail(st: CommitState, error: ClewError) -> (r: (CommitState, Result<CommitAction, ClewError>))
    ensures
        (r.0.deep_view(), outcome(r.1)) == fails(st.deep_view(), error.deep_view()),
{
    let mut st = st;
    st.phase = CommitPhase::Done;
    (st, Err(error))
}

fn record(st: CommitState, phase: CommitPhase, evidence: &str) -> (r: (
    CommitState,
    Result<CommitAction, ClewError>,
))
    ensures
        (r.0.deep_view(), outcome(r.1)) == records(st.deep_view(), phase, evidence@),
{
    ask(st, phase, CommitAction::Record { evidence: evidence.to_owned() })
}

fn finish(st: CommitState, report: Json) -> (r: (CommitState, Result<CommitAction, ClewError>))
    ensures
        (r.0.deep_view(), outcome(r.1)) == finishes(st.deep_view(), report.deep_view()),
{
    ask(st, CommitPhase::Done, CommitAction::Finish(report))
}

fn stop(st: CommitState, event: CommitEvent) -> (r: (CommitState, Result<CommitAction, ClewError>))
    ensures
        (r.0.deep_view(), outcome(r.1)) == stops(st.deep_view(), event.deep_view()),
{
    match event {
        CommitEvent::Failed(error) => fail(st, error),
        CommitEvent::Unrecorded(error) => fail(st, error),
        _ => {
            let error = ClewError::new(
                ErrorCode::Internal,
                "commit was told what it did not ask for",
            );
            fail(st, error)
        },
    }
}

/// The start of a commit.
pub open spec fn commit_started(transaction: TransactionModel, allowed: bool) -> CommitStateModel {
    CommitStateModel {
        transaction,
        allowed,
        phase: CommitPhase::Begin,
        target_ref: Seq::empty(),
        current: Seq::empty(),
        clean: false,
        base_index: Seq::empty(),
        edit_hash: Seq::empty(),
        existing: Seq::empty(),
        candidates: JsonModel::Null,
        writes: Seq::empty(),
        validation_ms: 0,
        candidate: Seq::empty(),
        live_model: JsonModel::Null,
        candidate_model: JsonModel::Null,
        transition: None,
        index: Seq::empty(),
        invalidations: Seq::empty(),
        failure: None,
    }
}

fn nothing() -> (r: String)
    ensures
        r@ == Seq::<char>::empty(),
{
    let r = String::new();
    assert(r@ =~= Seq::empty());
    r
}

impl CommitState {
    /// The start of a commit, which may carry out an edit that is said by what it does
    /// only where that is allowed.
    pub fn start(transaction: Transaction, allowed: bool) -> (r: CommitState)
        ensures
            r.deep_view() == commit_started(transaction.deep_view(), allowed),
    {
        let r = CommitState {
            transaction,
            allowed,
            phase: CommitPhase::Begin,
            target_ref: nothing(),
            current: nothing(),
            clean: false,
            base_index: nothing(),
            edit_hash: nothing(),
            existing: nothing(),
            candidates: Json::Null,
            writes: Vec::new(),
            validation_ms: 0,
            candidate: nothing(),
            live_model: Json::Null,
            candidate_model: Json::Null,
            transition: None,
            index: nothing(),
            invalidations: Vec::new(),
            failure: None,
        };
        assert(r.writes.deep_view() =~= Seq::empty());
        assert(r.invalidations.deep_view() =~= Seq::empty());
        r
    }
}

/// The full name of a reference.
pub open spec fn qualified(reference: Seq<char>) -> Seq<char> {
    if has_prefix(reference, "refs/"@) {
        reference
    } else {
        "refs/heads/"@ + reference
    }
}

/// The full name of a reference.
pub fn qualify(reference: &str) -> (r: String)
    ensures
        r@ == qualified(reference@),
{
    if starts_with(reference, "refs/") {
        reference.to_owned()
    } else {
        joined("refs/heads/", reference)
    }
}

/// The step of a commit that is asked for.
#[verifier::opaque]
pub open spec fn begin_stepped(st: CommitStateModel, event: CommitEventModel) -> CommitStep {
    match event {
        CommitEventModel::Begin { target_ref } => match required_threads_checked(st.transaction) {
            Err(e) => fails(st, e),
            Ok(_) => asks(
                CommitStateModel { target_ref: qualified(target_ref), ..st },
                CommitPhase::Target,
                CommitActionModel::ReadTarget { reference: qualified(target_ref) },
            ),
        },
        _ => stops(st, event),
    }
}

fn step_begin(st: CommitState, event: CommitEvent) -> (r: (
    CommitState,
    Result<CommitAction, ClewError>,
))
    ensures
        (r.0.deep_view(), outcome(r.1)) == begin_stepped(st.deep_view(), event.deep_view()),
{
    proof {
        reveal(begin_stepped);
    }
    match event {
        CommitEvent::Begin { target_ref } => match validate_required_threads(&st.transaction) {
            Err(e) => fail(st, e),
            Ok(_) => {
                let mut st = st;
                let reference = qualify(target_ref.as_str());
                st.target_ref = reference.clone();
                ask(st, CommitPhase::Target, CommitAction::ReadTarget { reference })
            },
        },
        _ => stop(st, event),
    }
}

/// A text that is there and not empty.
pub open spec fn nonempty_text(s: Option<Seq<char>>) -> Option<Seq<char>> {
    match s {
        Some(text) => if text.len() > 0 {
            Some(text)
        } else {
            None
        },
        None => None,
    }
}

/// The index that a transaction started from.
pub open spec fn base_index_of(t: TransactionModel) -> Option<Seq<char>> {
    match nonempty_text(t.base_index_snapshot) {
        Some(snapshot) => Some(snapshot),
        None => nonempty_text(Some(t.thread.snapshot.index_snapshot)),
    }
}

fn find_base_index(t: &Transaction) -> (r: Option<String>)
    ensures
        r.deep_view() == base_index_of(t.deep_view()),
{
    match &t.base_index_snapshot {
        Some(snapshot) => {
            if snapshot.as_str().unicode_len() > 0 {
                return Some(snapshot.clone());
            }
        },
        None => {},
    }
    if t.thread.snapshot.index_snapshot.as_str().unicode_len() > 0 {
        Some(t.thread.snapshot.index_snapshot.clone())
    } else {
        None
    }
}

/// The step where the target is known.
#[verifier::opaque]
pub open spec fn target_stepped(st: CommitStateModel, event: CommitEventModel) -> CommitStep {
    match event {
        CommitEventModel::Target { current, clean } => {
            if st.allowed && current != st.transaction.base_revision {
                fails(
                    st,
                    failure(
                        ErrorCode::StaleRequiresReslice,
                        "authority semantic proof is bound to its exact target revision; re-prove on the current target"@,
                    ),
                )
            } else {
                let aimed = CommitStateModel {
                    current,
                    clean,
                    transaction: TransactionModel {
                        target_ref: Some(st.target_ref),
                        ..st.transaction
                    },
                    ..st
                };
                match base_index_of(st.transaction) {
                    None => fails(
                        aimed,
                        failure(
                            ErrorCode::InvalidInput,
                            "transaction must start with an immutable repository index snapshot"@,
                        ),
                    ),
                    Some(base_index) => asks(
                        CommitStateModel {
                            base_index,
                            transaction: TransactionModel {
                                base_index_snapshot: Some(base_index),
                                ..aimed.transaction
                            },
                            ..aimed
                        },
                        CommitPhase::Index,
                        CommitActionModel::ReadIndex {
                            compilation: st.transaction.thread.snapshot.compilation,
                        },
                    ),
                }
            }
        },
        _ => stops(st, event),
    }
}

fn step_target(st: CommitState, event: CommitEvent) -> (r: (
    CommitState,
    Result<CommitAction, ClewError>,
))
    ensures
        (r.0.deep_view(), outcome(r.1)) == target_stepped(st.deep_view(), event.deep_view()),
{
    proof {
        reveal(target_stepped);
    }
    match event {
        CommitEvent::Target { current, clean } => {
            if st.allowed && !same_text(current.as_str(), st.transaction.base_revision.as_str()) {
                let error = ClewError::new(
                    ErrorCode::StaleRequiresReslice,
                    "authority semantic proof is bound to its exact target revision; re-prove on the current target",
                );
                return fail(st, error);
            }
            let mut st = st;
            let base = find_base_index(&st.transaction);
            st.current = current;
            st.clean = clean;
            st.transaction.target_ref = Some(st.target_ref.clone());
            match base {
                None => {
                    let error = ClewError::new(
                        ErrorCode::InvalidInput,
                        "transaction must start with an immutable repository index snapshot",
                    );
                    fail(st, error)
                },
                Some(base_index) => {
                    st.transaction.base_index_snapshot = Some(base_index.clone());
                    st.base_index = base_index;
                    let compilation = st.transaction.thread.snapshot.compilation.clone();
                    ask(st, CommitPhase::Index, CommitAction::ReadIndex { compilation })
                },
            }
        },
        _ => stop(st, event),
    }
}

/// The digest of the edit of a transaction.
pub open spec fn edit_digest(t: TransactionModel) -> Seq<char> {
    json_digest(<EditIr as Record>::json(t.edit))
}

pub(crate) fn digest_edit(t: &Transaction) -> (r: String)
    ensures
        r@ == edit_digest(t.deep_view()),
{
    hash(&t.edit.to_json())
}

/// The step where the index is known.
#[verifier::opaque]
pub open spec fn index_stepped(st: CommitStateModel, event: CommitEventModel) -> CommitStep {
    match event {
        CommitEventModel::Index { snapshot } => {
            if st.current == st.transaction.base_revision && snapshot != Some(st.base_index) {
                fails(
                    st,
                    failure(
                        ErrorCode::StaleRequiresReslice,
                        between(
                            "repository index snapshot changed since transaction start: expected "@,
                            st.base_index,
                            ", current "@,
                        ) + match snapshot {
                            Some(text) => text,
                            None => "<missing>"@,
                        },
                    ),
                )
            } else {
                asks(
                    CommitStateModel { edit_hash: edit_digest(st.transaction), ..st },
                    CommitPhase::History,
                    CommitActionModel::ScanHistory { reference: st.target_ref },
                )
            }
        },
        _ => stops(st, event),
    }
}

fn step_index(st: CommitState, event: CommitEvent) -> (r: (
    CommitState,
    Result<CommitAction, ClewError>,
))
    ensures
        (r.0.deep_view(), outcome(r.1)) == index_stepped(st.deep_view(), event.deep_view()),
{
    proof {
        reveal(index_stepped);
    }
    match event {
        CommitEvent::Index { snapshot } => {
            let same = match &snapshot {
                Some(text) => same_text(text.as_str(), st.base_index.as_str()),
                None => false,
            };
            if same_text(st.current.as_str(), st.transaction.base_revision.as_str()) && !same {
                let shown: String = match snapshot {
                    Some(text) => text,
                    None => "<missing>".to_owned(),
                };
                let message = joined(
                    framed(
                        "repository index snapshot changed since transaction start: expected ",
                        st.base_index.as_str(),
                        ", current ",
                    ).as_str(),
                    shown.as_str(),
                );
                let error = ClewError::new(ErrorCode::StaleRequiresReslice, message.as_str());
                return fail(st, error);
            }
            let mut st = st;
            st.edit_hash = digest_edit(&st.transaction);
            let reference = st.target_ref.clone();
            ask(st, CommitPhase::History, CommitAction::ScanHistory { reference })
        },
        _ => stop(st, event),
    }
}

/// A transaction with another status.
pub open spec fn with_status(t: TransactionModel, status: Seq<char>) -> TransactionModel {
    TransactionModel { status, ..t }
}

/// The step where the history of the target is known. Where it does not hold the
/// transaction, the edit is previewed: on the repository as it is, or replayed where the
/// target has moved.
#[verifier::opaque]
pub open spec fn history_stepped(st: CommitStateModel, event: CommitEventModel) -> CommitStep {
    match event {
        CommitEventModel::History(history) => match matching_commit(
            history,
            st.transaction.tx_id,
            st.edit_hash,
        ) {
            Err(e) => fails(st, e),
            Ok(Some(existing)) => asks(
                CommitStateModel { existing, ..st },
                CommitPhase::Revision,
                CommitActionModel::ReadRevision {
                    compilation: st.transaction.thread.snapshot.compilation,
                },
            ),
            Ok(None) => if st.current == st.transaction.base_revision {
                asks(
                    st,
                    CommitPhase::Preview,
                    CommitActionModel::Preview {
                        thread: st.transaction.thread,
                        edit: st.transaction.edit,
                        in_worktree: false,
                    },
                )
            } else {
                records(
                    CommitStateModel {
                        transaction: with_status(st.transaction, "REBASING"@),
                        ..st
                    },
                    CommitPhase::RecordRebasing,
                    "target ref moved; semantic replay requested"@,
                )
            },
        },
        _ => stops(st, event),
    }
}

fn step_history(st: CommitState, event: CommitEvent) -> (r: (
    CommitState,
    Result<CommitAction, ClewError>,
))
    ensures
        (r.0.deep_view(), outcome(r.1)) == history_stepped(st.deep_view(), event.deep_view()),
{
    proof {
        reveal(history_stepped);
    }
    match event {
        CommitEvent::History(history) => match find_matching_transaction_commit(
            history.as_str(),
            st.transaction.tx_id.as_str(),
            st.edit_hash.as_str(),
        ) {
            Err(e) => fail(st, e),
            Ok(Some(existing)) => {
                let mut st = st;
                st.existing = existing;
                let compilation = st.transaction.thread.snapshot.compilation.clone();
                ask(st, CommitPhase::Revision, CommitAction::ReadRevision { compilation })
            },
            Ok(None) => if same_text(
                st.current.as_str(),
                st.transaction.base_revision.as_str(),
            ) {
                let thread = st.transaction.thread.copied();
                let edit = st.transaction.edit.copied();
                ask(
                    st,
                    CommitPhase::Preview,
                    CommitAction::Preview { thread, edit, in_worktree: false },
                )
            } else {
                let mut st = st;
                st.transaction.status = "REBASING".to_owned();
                record(
                    st,
                    CommitPhase::RecordRebasing,
                    "target ref moved; semantic replay requested",
                )
            },
        },
        _ => stop(st, event),
    }
}

/// The error of an index that has to be brought up to date before anything else.
pub open spec fn recovery_needed(error: ErrorModel) -> ErrorModel {
    ErrorModel {
        code: ErrorCode::TransactionRecoveryRequired,
        retryable: true,
        message: "repository index publication requires recovery: "@ + error.message,
        ..error
    }
}

/// The error of an index that has to be brought up to date before anything else.
pub fn index_recovery_error(error: ClewError) -> (r: ClewError)
    ensures
        r.deep_view() == recovery_needed(error.deep_view()),
{
    let mut error = error;
    error.code = ErrorCode::TransactionRecoveryRequired;
    error.retryable = true;
    error.message = joined(
        "repository index publication requires recovery: ",
        error.message.as_str(),
    );
    error
}

/// The step where the transaction is in the history already, with the index of the target.
pub open spec fn existing_found(
    st: CommitStateModel,
    index: Seq<char>,
    invalidations: Seq<Seq<char>>,
) -> CommitStep {
    records(
        CommitStateModel {
            index,
            invalidations,
            transaction: TransactionModel {
                final_commit: Some(st.existing),
                ..with_status(st.transaction, "COMMITTED"@)
            },
            ..st
        },
        CommitPhase::RecordExisting,
        "idempotent retry matched reachable Git trailers"@,
    )
}

fn find_existing(st: CommitState, index: String, invalidations: Vec<String>) -> (r: (
    CommitState,
    Result<CommitAction, ClewError>,
))
    ensures
        (r.0.deep_view(), outcome(r.1)) == existing_found(
            st.deep_view(),
            index@,
            invalidations.deep_view(),
        ),
{
    let mut st = st;
    st.index = index;
    st.invalidations = invalidations;
    st.transaction.final_commit = Some(st.existing.clone());
    st.transaction.status = "COMMITTED".to_owned();
    record(st, CommitPhase::RecordExisting, "idempotent retry matched reachable Git trailers")
}

/// The steps where a commit of the history has the index that the target needs, or gets
/// one. The index follows the target, never an older commit of the transaction.
#[verifier::opaque]
pub open spec fn existing_stepped(st: CommitStateModel, event: CommitEventModel) -> CommitStep {
    match (st.phase, event) {
        (CommitPhase::Revision, CommitEventModel::Revision(revision)) => if revision == Some(
            st.current,
        ) {
            asks(
                st,
                CommitPhase::PublishedIndex,
                CommitActionModel::ReadPublished {
                    compilation: st.transaction.thread.snapshot.compilation,
                },
            )
        } else {
            asks(
                st,
                CommitPhase::RecoveryWorktree,
                CommitActionModel::AddWorktree { revision: st.current },
            )
        },
        (
            CommitPhase::PublishedIndex,
            CommitEventModel::PublishedIndex { snapshot, invalidations },
        ) => match snapshot {
            None => fails(
                st,
                failure(
                    ErrorCode::TransactionRecoveryRequired,
                    "published revision has no repository index hash"@,
                ),
            ),
            Some(index) => existing_found(st, index, invalidations),
        },
        (CommitPhase::RecoveryWorktree, CommitEventModel::WorktreeAdded) => asks(
            st,
            CommitPhase::RecoveryPrepare,
            CommitActionModel::Prepare { system: st.transaction.thread.snapshot.build_system },
        ),
        (CommitPhase::RecoveryWorktree, CommitEventModel::Failed(error)) => fails(
            st,
            recovery_needed(error),
        ),
        (CommitPhase::RecoveryPrepare, CommitEventModel::Prepared) => asks(
            st,
            CommitPhase::RecoveryStage,
            CommitActionModel::StageIndex {
                revision: st.current,
                compilation: st.transaction.thread.snapshot.compilation,
            },
        ),
        (CommitPhase::RecoveryPrepare, CommitEventModel::Failed(error)) => fails(
            st,
            recovery_needed(recovery_needed(error)),
        ),
        (CommitPhase::RecoveryStage, CommitEventModel::Staged) => asks(
            st,
            CommitPhase::RecoveryPublish,
            CommitActionModel::PublishIndex,
        ),
        (CommitPhase::RecoveryStage, CommitEventModel::Failed(error)) => fails(
            st,
            recovery_needed(recovery_needed(error)),
        ),
        (
            CommitPhase::RecoveryPublish,
            CommitEventModel::IndexPublished { snapshot, invalidations },
        ) => existing_found(st, snapshot, invalidations),
        (CommitPhase::RecoveryPublish, CommitEventModel::Failed(error)) => fails(
            st,
            recovery_needed(error),
        ),
        _ => stops(st, event),
    }
}

fn step_existing(st: CommitState, event: CommitEvent) -> (r: (
    CommitState,
    Result<CommitAction, ClewError>,
))
    ensures
        (r.0.deep_view(), outcome(r.1)) == existing_stepped(st.deep_view(), event.deep_view()),
{
    proof {
        reveal(existing_stepped);
    }
    match (st.phase, event) {
        (CommitPhase::Revision, CommitEvent::Revision(revision)) => {
            let same = match &revision {
                Some(text) => same_text(text.as_str(), st.current.as_str()),
                None => false,
            };
            if same {
                let compilation = st.transaction.thread.snapshot.compilation.clone();
                ask(st, CommitPhase::PublishedIndex, CommitAction::ReadPublished { compilation })
            } else {
                let revision = st.current.clone();
                ask(st, CommitPhase::RecoveryWorktree, CommitAction::AddWorktree { revision })
            }
        },
        (CommitPhase::PublishedIndex, CommitEvent::PublishedIndex { snapshot, invalidations }) => {
            match snapshot {
                None => {
                    let error = ClewError::new(
                        ErrorCode::TransactionRecoveryRequired,
                        "published revision has no repository index hash",
                    );
                    fail(st, error)
                },
                Some(index) => find_existing(st, index, invalidations),
            }
        },
        (CommitPhase::RecoveryWorktree, CommitEvent::WorktreeAdded) => {
            let system = st.transaction.thread.snapshot.build_system;
            ask(st, CommitPhase::RecoveryPrepare, CommitAction::Prepare { system })
        },
        (CommitPhase::RecoveryWorktree, CommitEvent::Failed(error)) => fail(
            st,
            index_recovery_error(error),
        ),
        (CommitPhase::RecoveryPrepare, CommitEvent::Prepared) => {
            let revision = st.current.clone();
            let compilation = st.transaction.thread.snapshot.compilation.clone();
            ask(
                st,
                CommitPhase::RecoveryStage,
                CommitAction::StageIndex { revision, compilation },
            )
        },
        (CommitPhase::RecoveryPrepare, CommitEvent::Failed(error)) => fail(
            st,
            index_recovery_error(index_recovery_error(error)),
        ),
        (CommitPhase::RecoveryStage, CommitEvent::Staged) => ask(
            st,
            CommitPhase::RecoveryPublish,
            CommitAction::PublishIndex,
        ),
        (CommitPhase::RecoveryStage, CommitEvent::Failed(error)) => fail(
            st,
            index_recovery_error(index_recovery_error(error)),
        ),
        (CommitPhase::RecoveryPublish, CommitEvent::IndexPublished { snapshot, invalidations }) => {
            find_existing(st, snapshot, invalidations)
        },
        (CommitPhase::RecoveryPublish, CommitEvent::Failed(error)) => fail(
            st,
            index_recovery_error(error),
        ),
        (_, event) => stop(st, event),
    }
}

/// The report of a transaction that was in the history already.
pub open spec fn existing_report(st: CommitStateModel, recorded: bool) -> JsonModel {
    JsonModel::object()
        .with("schema"@, JsonModel::Str("semantic-commit/0.1"@))
        .with("transactionId"@, JsonModel::Str(st.transaction.tx_id))
        .with("baseRevision"@, JsonModel::Str(st.transaction.base_revision))
        .with("finalCommit"@, JsonModel::Str(st.existing))
        .with("currentRevision"@, JsonModel::Str(st.current))
        .with("finalIndexSnapshot"@, JsonModel::Str(st.index))
        .with("appliedInvalidations"@, <Vec<String> as Record>::json(st.invalidations))
        .with("targetRef"@, JsonModel::Str(st.target_ref))
        .with("status"@, JsonModel::Str("COMMITTED"@))
        .with("idempotent"@, JsonModel::Bool(true))
        .with("ledgerRecorded"@, JsonModel::Bool(recorded))
}

fn report_existing(st: &CommitState, recorded: bool) -> (r: Json)
    ensures
        r.deep_view() == existing_report(st.deep_view(), recorded),
{
    Json::object()
        .with("schema", Json::Str("semantic-commit/0.1".to_owned()))
        .with("transactionId", Json::Str(st.transaction.tx_id.clone()))
        .with("baseRevision", Json::Str(st.transaction.base_revision.clone()))
        .with("finalCommit", Json::Str(st.existing.clone()))
        .with("currentRevision", Json::Str(st.current.clone()))
        .with("finalIndexSnapshot", Json::Str(st.index.clone()))
        .with("appliedInvalidations", st.invalidations.to_json())
        .with("targetRef", Json::Str(st.target_ref.clone()))
        .with("status", Json::Str("COMMITTED".to_owned()))
        .with("idempotent", Json::Bool(true))
        .with("ledgerRecorded", Json::Bool(recorded))
}

/// Whether an event answers that a transaction was to be recorded.
pub open spec fn is_record_answer(event: CommitEventModel) -> bool {
    event is Recorded || event is Unrecorded || event is Failed
}

/// The step behind the record of a transaction that was in the history already. That the
/// record failed makes no failure of what is committed.
#[verifier::opaque]
pub open spec fn existing_recorded(st: CommitStateModel, event: CommitEventModel) -> CommitStep {
    if is_record_answer(event) {
        finishes(st, existing_report(st, event is Recorded))
    } else {
        stops(st, event)
    }
}

fn step_existing_recorded(st: CommitState, event: CommitEvent) -> (r: (
    CommitState,
    Result<CommitAction, ClewError>,
))
    ensures
        (r.0.deep_view(), outcome(r.1)) == existing_recorded(st.deep_view(), event.deep_view()),
{
    proof {
        reveal(existing_recorded);
    }
    match event {
        CommitEvent::Recorded => {
            let report = report_existing(&st, true);
            finish(st, report)
        },
        CommitEvent::Unrecorded(_) => {
            let report = report_existing(&st, false);
            finish(st, report)
        },
        CommitEvent::Failed(_) => {
            let report = report_existing(&st, false);
            finish(st, report)
        },
        _ => stop(st, event),
    }
}

/// The error of a preview: where the target has moved, a target that is gone, ambiguous or
/// in another project is a conflict of writes.
pub open spec fn preview_refused(st: CommitStateModel, error: ErrorModel) -> ErrorModel {
    if st.current != st.transaction.base_revision && (error.code == ErrorCode::StaleTarget
        || error.code == ErrorCode::AmbiguousTarget || error.code
        == ErrorCode::ProjectModelChanged) {
        ErrorModel { code: ErrorCode::WwConflict, ..error }
    } else {
        error
    }
}

fn refuse_preview(st: &CommitState, error: ClewError) -> (r: ClewError)
    ensures
        r.deep_view() == preview_refused(st.deep_view(), error.deep_view()),
{
    let mut error = error;
    let gone = error.code == ErrorCode::StaleTarget || error.code == ErrorCode::AmbiguousTarget
        || error.code == ErrorCode::ProjectModelChanged;
    if gone && !same_text(st.current.as_str(), st.transaction.base_revision.as_str()) {
        error.code = ErrorCode::WwConflict;
    }
    error
}

/// The step where a replay has failed: where what the edit rests on has changed, the
/// transaction is recorded as stale first.
pub open spec fn replay_failed(st: CommitStateModel, error: ErrorModel) -> CommitStep {
    if error.code == ErrorCode::StaleRequiresReslice {
        records(
            CommitStateModel {
                failure: Some(error),
                transaction: with_status(st.transaction, "STALE_REQUIRES_RESLICE"@),
                ..st
            },
            CommitPhase::RecordStale,
            "project model or read dependency changed"@,
        )
    } else {
        fails(st, preview_refused(st, error))
    }
}

fn fail_replay(st: CommitState, error: ClewError) -> (r: (
    CommitState,
    Result<CommitAction, ClewError>,
))
    ensures
        (r.0.deep_view(), outcome(r.1)) == replay_failed(st.deep_view(), error.deep_view()),
{
    if error.code == ErrorCode::StaleRequiresReslice {
        let mut st = st;
        st.failure = Some(error);
        st.transaction.status = "STALE_REQUIRES_RESLICE".to_owned();
        record(st, CommitPhase::RecordStale, "project model or read dependency changed")
    } else {
        let error = refuse_preview(&st, error);
        fail(st, error)
    }
}

/// What a preview has found, as evidence.
pub open spec fn preview_evidence(report: PreviewReportModel) -> JsonModel {
    JsonModel::object()
        .with("kind"@, JsonModel::Str("SEMANTIC_PREVIEW"@))
        .with("valid"@, JsonModel::Bool(report.valid))
        .with(
            "diagnosticsHash"@,
            JsonModel::Str(json_digest(<Vec<Json> as Record>::json(report.diagnostics))),
        )
        .with("expectedWriteSetHash"@, JsonModel::Str(expected_digest(report)))
        .with("actualWriteSetHash"@, JsonModel::Str(actual_digest(report)))
}

/// The digest of what an edit may change.
pub open spec fn expected_digest(report: PreviewReportModel) -> Seq<char> {
    json_digest(<Vec<ExpectedWriteFact> as Record>::json(report.expected_write_set))
}

/// The digest of what an edit changes.
pub open spec fn actual_digest(report: PreviewReportModel) -> Seq<char> {
    json_digest(<Vec<WriteFact> as Record>::json(report.actual_write_set))
}

fn say_preview(report: &PreviewReport, expected: &String, actual: &String) -> (r: Json)
    requires
        expected@ == expected_digest(report.deep_view()),
        actual@ == actual_digest(report.deep_view()),
    ensures
        r.deep_view() == preview_evidence(report.deep_view()),
{
    Json::object()
        .with("kind", Json::Str("SEMANTIC_PREVIEW".to_owned()))
        .with("valid", Json::Bool(report.valid))
        .with("diagnosticsHash", Json::Str(hash(&report.diagnostics.to_json())))
        .with("expectedWriteSetHash", Json::Str(expected.clone()))
        .with("actualWriteSetHash", Json::Str(actual.clone()))
}

/// The step where an edit was previewed.
pub open spec fn preview_accepted(st: CommitStateModel, report: PreviewReportModel) -> CommitStep {
    records(
        CommitStateModel {
            candidates: report.candidates,
            writes: report.actual_write_set,
            transaction: TransactionModel {
                preview: Some(report),
                expected_write_set_hash: Some(expected_digest(report)),
                actual_write_set_hash: Some(actual_digest(report)),
                validation_evidence: st.transaction.validation_evidence.push(
                    preview_evidence(report),
                ),
                ..with_status(st.transaction, "VALIDATED"@)
            },
            ..st
        },
        CommitPhase::RecordValidated,
        "preview and Gradle validation passed"@,
    )
}

fn push_evidence(t: &mut Transaction, evidence: Json)
    ensures
        final(t).deep_view() == (TransactionModel {
            validation_evidence: old(t).deep_view().validation_evidence.push(
                evidence.deep_view(),
            ),
            ..old(t).deep_view()
        }),
{
    let ghost before = t.validation_evidence.deep_view();
    t.validation_evidence.push(evidence);
    assert(t.validation_evidence.deep_view() =~= before.push(evidence.deep_view()));
}

fn accept_preview(st: CommitState, report: PreviewReport) -> (r: (
    CommitState,
    Result<CommitAction, ClewError>,
))
    ensures
        (r.0.deep_view(), outcome(r.1)) == preview_accepted(st.deep_view(), report.deep_view()),
{
    let mut st = st;
    let expected = hash(&report.expected_write_set.to_json());
    let actual = hash(&report.actual_write_set.to_json());
    let evidence = say_preview(&report, &expected, &actual);
    st.candidates = report.candidates.copied();
    st.writes = report.actual_write_set.copied();
    push_evidence(&mut st.transaction, evidence);
    st.transaction.preview = Some(report);
    st.transaction.expected_write_set_hash = Some(expected);
    st.transaction.actual_write_set_hash = Some(actual);
    st.transaction.status = "VALIDATED".to_owned();
    record(st, CommitPhase::RecordValidated, "preview and Gradle validation passed")
}

/// The step of a replay where the project is known. The edit may be replayed only in the
/// project that it was asked on.
#[verifier::opaque]
pub open spec fn replay_model_stepped(st: CommitStateModel, event: CommitEventModel) -> CommitStep {
    match event {
        CommitEventModel::Model(project) => if project.str_at("projectModelHash"@) != Some(
            st.transaction.project_model_hash,
        ) {
            replay_failed(
                st,
                failure(
                    ErrorCode::StaleRequiresReslice,
                    between(
                        "project model changed since slice: expected "@,
                        st.transaction.project_model_hash,
                        ", current "@,
                    ) + match project.str_at("projectModelHash"@) {
                        Some(text) => text,
                        None => "<missing>"@,
                    },
                ),
            )
        } else {
            asks(
                st,
                CommitPhase::ReplayReads,
                CommitActionModel::RebuildThreads { project, revision: st.current },
            )
        },
        CommitEventModel::Failed(error) => replay_failed(st, error),
        _ => stops(st, event),
    }
}

fn names_model(project: &Json, digest: &str) -> (r: bool)
    ensures
        r == (project.deep_view().str_at("projectModelHash"@) == Some(digest@)),
{
    match project.str_at("projectModelHash") {
        Some(text) => same_text(text.as_str(), digest),
        None => false,
    }
}

fn step_replay_model(st: CommitState, event: CommitEvent) -> (r: (
    CommitState,
    Result<CommitAction, ClewError>,
))
    ensures
        (r.0.deep_view(), outcome(r.1)) == replay_model_stepped(st.deep_view(), event.deep_view()),
{
    proof {
        reveal(replay_model_stepped);
    }
    match event {
        CommitEvent::Model(project) => {
            if !names_model(&project, st.transaction.project_model_hash.as_str()) {
                let shown: String = match project.str_at("projectModelHash") {
                    Some(text) => text.clone(),
                    None => "<missing>".to_owned(),
                };
                let message = joined(
                    framed(
                        "project model changed since slice: expected ",
                        st.transaction.project_model_hash.as_str(),
                        ", current ",
                    ).as_str(),
                    shown.as_str(),
                );
                let error = ClewError::new(ErrorCode::StaleRequiresReslice, message.as_str());
                return fail_replay(st, error);
            }
            let revision = st.current.clone();
            ask(st, CommitPhase::ReplayReads, CommitAction::RebuildThreads { project, revision })
        },
        CommitEvent::Failed(error) => fail_replay(st, error),
        _ => stop(st, event),
    }
}

/// A thread at another revision.
pub open spec fn thread_at(thread: ThreadIrModel, revision: Seq<char>) -> ThreadIrModel {
    ThreadIrModel {
        snapshot: SnapshotModel { base_revision: revision, ..thread.snapshot },
        ..thread
    }
}

/// An edit at another revision.
pub open spec fn edit_at(edit: EditIrModel, revision: Seq<char>) -> EditIrModel {
    EditIrModel { base_revision: revision, ..edit }
}

/// The step of a replay where what the edit rests on was read again.
#[verifier::opaque]
pub open spec fn replay_reads_stepped(st: CommitStateModel, event: CommitEventModel) -> CommitStep {
    match event {
        CommitEventModel::Rebuilt { threads, sources } => match reads_checked(
            st.transaction,
            sources,
            threads_of(st.transaction),
            threads,
            0,
        ) {
            Err(error) => replay_failed(st, error),
            Ok(_) => asks(
                st,
                CommitPhase::ReplayPreview,
                CommitActionModel::Preview {
                    thread: thread_at(st.transaction.thread, st.current),
                    edit: edit_at(st.transaction.edit, st.current),
                    in_worktree: true,
                },
            ),
        },
        CommitEventModel::Failed(error) => replay_failed(st, error),
        _ => stops(st, event),
    }
}

fn step_replay_reads(st: CommitState, event: CommitEvent) -> (r: (
    CommitState,
    Result<CommitAction, ClewError>,
))
    ensures
        (r.0.deep_view(), outcome(r.1)) == replay_reads_stepped(st.deep_view(), event.deep_view()),
{
    proof {
        reveal(replay_reads_stepped);
    }
    match event {
        CommitEvent::Rebuilt { threads, sources } => match revalidate_semantic_read_set(
            &st.transaction,
            &sources,
            &threads,
        ) {
            Err(error) => fail_replay(st, error),
            Ok(_) => {
                let mut thread = st.transaction.thread.copied();
                thread.snapshot.base_revision = st.current.clone();
                let mut edit = st.transaction.edit.copied();
                edit.base_revision = st.current.clone();
                ask(
                    st,
                    CommitPhase::ReplayPreview,
                    CommitAction::Preview { thread, edit, in_worktree: true },
                )
            },
        },
        CommitEvent::Failed(error) => fail_replay(st, error),
        _ => stop(st, event),
    }
}

/// The other steps of a preview, on the repository or in a replay.
#[verifier::opaque]
pub open spec fn preview_stepped(st: CommitStateModel, event: CommitEventModel) -> CommitStep {
    match (st.phase, event) {
        (CommitPhase::RecordRebasing, CommitEventModel::Recorded) => asks(
            st,
            CommitPhase::ReplayWorktree,
            CommitActionModel::AddWorktree { revision: st.current },
        ),
        (CommitPhase::RecordRebasing, CommitEventModel::Unrecorded(error)) => fails(
            st,
            preview_refused(st, error),
        ),
        (CommitPhase::RecordRebasing, CommitEventModel::Failed(error)) => fails(
            st,
            preview_refused(st, error),
        ),
        (CommitPhase::ReplayWorktree, CommitEventModel::WorktreeAdded) => asks(
            st,
            CommitPhase::ReplayPrepare,
            CommitActionModel::Prepare { system: st.transaction.thread.snapshot.build_system },
        ),
        (CommitPhase::ReplayWorktree, CommitEventModel::Failed(error)) => fails(
            st,
            preview_refused(st, error),
        ),
        (CommitPhase::ReplayPrepare, CommitEventModel::Prepared) => asks(
            st,
            CommitPhase::ReplayModel,
            CommitActionModel::OpenProject {
                compilation: st.transaction.thread.snapshot.compilation,
                in_worktree: true,
            },
        ),
        (CommitPhase::ReplayPrepare, CommitEventModel::Failed(error)) => replay_failed(st, error),
        (CommitPhase::Preview, CommitEventModel::Previewed(report)) => preview_accepted(
            st,
            report,
        ),
        (CommitPhase::Preview, CommitEventModel::Failed(error)) => fails(
            st,
            preview_refused(st, error),
        ),
        (CommitPhase::ReplayPreview, CommitEventModel::Previewed(report)) => preview_accepted(
            st,
            report,
        ),
        (CommitPhase::ReplayPreview, CommitEventModel::Failed(error)) => replay_failed(st, error),
        _ => stops(st, event),
    }
}

fn step_preview(st: CommitState, event: CommitEvent) -> (r: (
    CommitState,
    Result<CommitAction, ClewError>,
))
    ensures
        (r.0.deep_view(), outcome(r.1)) == preview_stepped(st.deep_view(), event.deep_view()),
{
    proof {
        reveal(preview_stepped);
    }
    match (st.phase, event) {
        (CommitPhase::RecordRebasing, CommitEvent::Recorded) => {
            let revision = st.current.clone();
            ask(st, CommitPhase::ReplayWorktree, CommitAction::AddWorktree { revision })
        },
        (CommitPhase::RecordRebasing, CommitEvent::Unrecorded(error)) => {
            let error = refuse_preview(&st, error);
            fail(st, error)
        },
        (CommitPhase::RecordRebasing, CommitEvent::Failed(error)) => {
            let error = refuse_preview(&st, error);
            fail(st, error)
        },
        (CommitPhase::ReplayWorktree, CommitEvent::WorktreeAdded) => {
            let system = st.transaction.thread.snapshot.build_system;
            ask(st, CommitPhase::ReplayPrepare, CommitAction::Prepare { system })
        },
        (CommitPhase::ReplayWorktree, CommitEvent::Failed(error)) => {
            let error = refuse_preview(&st, error);
            fail(st, error)
        },
        (CommitPhase::ReplayPrepare, CommitEvent::Prepared) => {
            let compilation = st.transaction.thread.snapshot.compilation.clone();
            ask(
                st,
                CommitPhase::ReplayModel,
                CommitAction::OpenProject { compilation, in_worktree: true },
            )
        },
        (CommitPhase::ReplayPrepare, CommitEvent::Failed(error)) => fail_replay(st, error),
        (CommitPhase::Preview, CommitEvent::Previewed(report)) => accept_preview(st, report),
        (CommitPhase::Preview, CommitEvent::Failed(error)) => {
            let error = refuse_preview(&st, error);
            fail(st, error)
        },
        (CommitPhase::ReplayPreview, CommitEvent::Previewed(report)) => accept_preview(
            st,
            report,
        ),
        (CommitPhase::ReplayPreview, CommitEvent::Failed(error)) => fail_replay(st, error),
        (_, event) => stop(st, event),
    }
}

/// The step behind the record of a stale transaction: the error that made it stale, unless
/// there is no ledger to record it in.
#[verifier::opaque]
pub open spec fn stale_recorded(st: CommitStateModel, event: CommitEventModel) -> CommitStep {
    let told = CommitStateModel { failure: None, ..st };
    match (st.failure, event) {
        (_, CommitEventModel::Failed(error)) => fails(told, preview_refused(st, error)),
        (Some(error), CommitEventModel::Recorded) => fails(told, preview_refused(st, error)),
        (Some(error), CommitEventModel::Unrecorded(_)) => fails(told, preview_refused(st, error)),
        _ => stops(told, event),
    }
}

fn step_stale_recorded(st: CommitState, event: CommitEvent) -> (r: (
    CommitState,
    Result<CommitAction, ClewError>,
))
    ensures
        (r.0.deep_view(), outcome(r.1)) == stale_recorded(st.deep_view(), event.deep_view()),
{
    proof {
        reveal(stale_recorded);
    }
    let mut st = st;
    let failure = st.failure.take();
    match (failure, event) {
        (_, CommitEvent::Failed(error)) => {
            let error = refuse_preview(&st, error);
            fail(st, error)
        },
        (Some(error), CommitEvent::Recorded) => {
            let error = refuse_preview(&st, error);
            fail(st, error)
        },
        (Some(error), CommitEvent::Unrecorded(_)) => {
            let error = refuse_preview(&st, error);
            fail(st, error)
        },
        (_, event) => stop(st, event),
    }
}

/// The keys of an object.
pub open spec fn keys_of(j: JsonModel) -> Seq<Seq<char>> {
    match j {
        JsonModel::Obj(m) => Seq::new(m.len(), |i: int| m[i].0),
        _ => Seq::empty(),
    }
}

fn list_keys(j: &Json) -> (r: Vec<String>)
    ensures
        r.deep_view() == keys_of(j.deep_view()),
{
    let mut r: Vec<String> = Vec::new();
    match j {
        Json::Obj(members) => {
            proof {
                model_of_object(*members);
            }
            let ghost m = member_models(members@);
            let mut i: usize = 0;
            while i < members.len()
                invariant
                    i <= members.len(),
                    m == member_models(members@),
                    r.deep_view() =~= Seq::new(i as nat, |k: int| m[k].0),
                decreases members.len() - i,
            {
                let ghost before = r.deep_view();
                r.push(members[i].0.clone());
                assert(r.deep_view() =~= before.push(m[i as int].0));
                i = i + 1;
            }
            assert(r.deep_view() =~= keys_of(j.deep_view()));
        },
        _ => {
            assert(r.deep_view() =~= Seq::empty());
        },
    }
    r
}

/// The outcome for some paths in a repository, from one on.
pub open spec fn paths_checked(paths: Seq<Seq<char>>, i: int) -> Result<(), ErrorModel>
    decreases paths.len() - i,
{
    if i < 0 || i >= paths.len() {
        Ok(())
    } else {
        match path_checked(paths[i]) {
            Err(e) => Err(e),
            Ok(_) => paths_checked(paths, i + 1),
        }
    }
}

fn check_paths(paths: &Vec<String>) -> (r: Result<(), ClewError>)
    ensures
        outcome(r) == paths_checked(paths.deep_view(), 0),
{
    let ghost m = paths.deep_view();
    let mut i: usize = 0;
    while i < paths.len()
        invariant
            i <= paths.len(),
            m == paths.deep_view(),
            paths_checked(m, 0) == paths_checked(m, i as int),
        decreases paths.len() - i,
    {
        assert(m[i as int] == paths@[i as int]@);
        check_path(paths[i].as_str())?;
        i = i + 1;
    }
    Ok(())
}

/// The step behind the record of a preview: where nothing changes, the transaction is at
/// its target already.
#[verifier::opaque]
pub open spec fn validated_recorded(st: CommitStateModel, event: CommitEventModel) -> CommitStep {
    match event {
        CommitEventModel::Recorded => if keys_of(st.candidates).len() == 0 {
            records(
                CommitStateModel {
                    transaction: TransactionModel {
                        final_commit: Some(st.current),
                        ..with_status(st.transaction, "COMMITTED"@)
                    },
                    ..st
                },
                CommitPhase::RecordNothing,
                "idempotent no-op merged at current ref"@,
            )
        } else {
            asks(
                st,
                CommitPhase::CandidateWorktree,
                CommitActionModel::AddWorktree { revision: st.current },
            )
        },
        _ => stops(st, event),
    }
}

fn step_validated_recorded(st: CommitState, event: CommitEvent) -> (r: (
    CommitState,
    Result<CommitAction, ClewError>,
))
    ensures
        (r.0.deep_view(), outcome(r.1)) == validated_recorded(st.deep_view(), event.deep_view()),
{
    proof {
        reveal(validated_recorded);
    }
    match event {
        CommitEvent::Recorded => {
            let keys = list_keys(&st.candidates);
            if keys.len() == 0 {
                let mut st = st;
                st.transaction.final_commit = Some(st.current.clone());
                st.transaction.status = "COMMITTED".to_owned();
                record(st, CommitPhase::RecordNothing, "idempotent no-op merged at current ref")
            } else {
                let revision = st.current.clone();
                ask(st, CommitPhase::CandidateWorktree, CommitAction::AddWorktree { revision })
            }
        },
        _ => stop(st, event),
    }
}

/// The report of a transaction that changes nothing.
pub open spec fn nothing_report(st: CommitStateModel) -> JsonModel {
    JsonModel::object()
        .with("schema"@, JsonModel::Str("semantic-commit/0.1"@))
        .with("transactionId"@, JsonModel::Str(st.transaction.tx_id))
        .with("baseRevision"@, JsonModel::Str(st.current))
        .with("finalCommit"@, JsonModel::Str(st.current))
        .with("targetRef"@, JsonModel::Str(st.target_ref))
        .with("status"@, JsonModel::Str("COMMITTED"@))
        .with("idempotent"@, JsonModel::Bool(true))
}

fn report_nothing(st: &CommitState) -> (r: Json)
    ensures
        r.deep_view() == nothing_report(st.deep_view()),
{
    Json::object()
        .with("schema", Json::Str("semantic-commit/0.1".to_owned()))
        .with("transactionId", Json::Str(st.transaction.tx_id.clone()))
        .with("baseRevision", Json::Str(st.current.clone()))
        .with("finalCommit", Json::Str(st.current.clone()))
        .with("targetRef", Json::Str(st.target_ref.clone()))
        .with("status", Json::Str("COMMITTED".to_owned()))
        .with("idempotent", Json::Bool(true))
}

/// The tests that a transaction is built with.
pub open spec fn tests_of(t: TransactionModel) -> Seq<Seq<char>> {
    if t.test_tasks.len() == 0 {
        t.thread.snapshot.test_tasks
    } else {
        t.test_tasks
    }
}

fn list_tests(t: &Transaction) -> (r: Vec<String>)
    ensures
        r.deep_view() == tests_of(t.deep_view()),
{
    if t.test_tasks.len() == 0 {
        t.thread.snapshot.test_tasks.copied()
    } else {
        t.test_tasks.copied()
    }
}

/// What a build has found, as evidence.
pub open spec fn build_evidence(t: TransactionModel, compile_ms: u64, test_ms: u64) -> JsonModel {
    JsonModel::object()
        .with("kind"@, JsonModel::Str("BUILD"@))
        .with("buildSystem"@, <BuildSystem as Record>::json(t.thread.snapshot.build_system))
        .with("buildLauncher"@, JsonModel::Str(t.thread.snapshot.build_launcher))
        .with("compileTask"@, JsonModel::Str(t.thread.snapshot.compile_task))
        .with("testTasks"@, <Vec<String> as Record>::json(tests_of(t)))
        .with("compileDurationMs"@, JsonModel::Uint(compile_ms))
        .with("testDurationMs"@, JsonModel::Uint(test_ms))
        .with(
            "compileCoveredByTestLifecycle"@,
            JsonModel::Bool(
                t.thread.snapshot.build_system == BuildSystem::Maven && tests_of(t).len() > 0,
            ),
        )
        .with("status"@, JsonModel::Str("PASSED"@))
}

fn say_build(t: &Transaction, compile_ms: u64, test_ms: u64) -> (r: Json)
    ensures
        r.deep_view() == build_evidence(t.deep_view(), compile_ms, test_ms),
{
    let tests = list_tests(t);
    let system = t.thread.snapshot.build_system;
    let covered = system == BuildSystem::Maven && tests.len() > 0;
    Json::object()
        .with("kind", Json::Str("BUILD".to_owned()))
        .with("buildSystem", system.to_json())
        .with("buildLauncher", Json::Str(t.thread.snapshot.build_launcher.clone()))
        .with("compileTask", Json::Str(t.thread.snapshot.compile_task.clone()))
        .with("testTasks", tests.to_json())
        .with("compileDurationMs", Json::Uint(compile_ms))
        .with("testDurationMs", Json::Uint(test_ms))
        .with("compileCoveredByTestLifecycle", Json::Bool(covered))
        .with("status", Json::Str("PASSED".to_owned()))
}

/// The steps that make a candidate: a worktree with the sources that the edit gives, built
/// and tested, then committed.
#[verifier::opaque]
pub open spec fn candidate_stepped(st: CommitStateModel, event: CommitEventModel) -> CommitStep {
    match (st.phase, event) {
        (CommitPhase::RecordNothing, CommitEventModel::Recorded) => finishes(
            st,
            nothing_report(st),
        ),
        (CommitPhase::CandidateWorktree, CommitEventModel::WorktreeAdded) => asks(
            st,
            CommitPhase::CandidatePrepare,
            CommitActionModel::Prepare { system: st.transaction.thread.snapshot.build_system },
        ),
        (CommitPhase::CandidatePrepare, CommitEventModel::Prepared) => match paths_checked(
            keys_of(st.candidates),
            0,
        ) {
            Err(e) => fails(st, e),
            Ok(_) => asks(
                st,
                CommitPhase::Files,
                CommitActionModel::WriteFiles(st.candidates),
            ),
        },
        (CommitPhase::Files, CommitEventModel::Written) => asks(
            st,
            CommitPhase::Build,
            CommitActionModel::Build {
                system: st.transaction.thread.snapshot.build_system,
                launcher: st.transaction.thread.snapshot.build_launcher,
                compile_task: st.transaction.thread.snapshot.compile_task,
                tests: tests_of(st.transaction),
            },
        ),
        (CommitPhase::Build, CommitEventModel::Built { compile_ms, test_ms }) => asks(
            CommitStateModel {
                validation_ms: (compile_ms + test_ms) as u64,
                transaction: TransactionModel {
                    validation_evidence: st.transaction.validation_evidence.push(
                        build_evidence(st.transaction, compile_ms, test_ms),
                    ),
                    ..st.transaction
                },
                ..st
            },
            CommitPhase::Candidate,
            CommitActionModel::CommitFiles {
                files: keys_of(st.candidates),
                message: commit_message(
                    st.transaction.intent,
                    st.transaction.tx_id,
                    st.transaction.base_revision,
                    st.edit_hash,
                ),
            },
        ),
        (CommitPhase::Candidate, CommitEventModel::Candidate(candidate)) => records(
            CommitStateModel {
                candidate,
                transaction: TransactionModel {
                    candidate_commit: Some(candidate),
                    ..with_status(st.transaction, "COMMITTING"@)
                },
                ..st
            },
            CommitPhase::RecordCandidate,
            "candidate commit created"@,
        ),
        (CommitPhase::RecordCandidate, CommitEventModel::Recorded) => asks(
            st,
            CommitPhase::LiveModel,
            CommitActionModel::OpenProject {
                compilation: st.transaction.thread.snapshot.compilation,
                in_worktree: false,
            },
        ),
        _ => stops(st, event),
    }
}

fn step_built(st: CommitState, compile_ms: u64, test_ms: u64) -> (r: (
    CommitState,
    Result<CommitAction, ClewError>,
))
    requires
        st.phase == CommitPhase::Build,
        compile_ms + test_ms <= u64::MAX,
    ensures
        (r.0.deep_view(), outcome(r.1)) == candidate_stepped(
            st.deep_view(),
            (CommitEventModel::Built { compile_ms, test_ms }),
        ),
{
    proof {
        reveal(candidate_stepped);
    }
    let mut st = st;
    let evidence = say_build(&st.transaction, compile_ms, test_ms);
    let files = list_keys(&st.candidates);
    let message = write_commit_message(
        st.transaction.intent.as_str(),
        st.transaction.tx_id.as_str(),
        st.transaction.base_revision.as_str(),
        st.edit_hash.as_str(),
    );
    push_evidence(&mut st.transaction, evidence);
    st.validation_ms = compile_ms + test_ms;
    ask(st, CommitPhase::Candidate, CommitAction::CommitFiles { files, message })
}

fn step_candidate(st: CommitState, event: CommitEvent) -> (r: (
    CommitState,
    Result<CommitAction, ClewError>,
))
    requires
        event is Built ==> event->compile_ms + event->test_ms <= u64::MAX,
    ensures
        (r.0.deep_view(), outcome(r.1)) == candidate_stepped(st.deep_view(), event.deep_view()),
{
    proof {
        reveal(candidate_stepped);
    }
    match (st.phase, event) {
        (CommitPhase::RecordNothing, CommitEvent::Recorded) => {
            let report = report_nothing(&st);
            finish(st, report)
        },
        (CommitPhase::CandidateWorktree, CommitEvent::WorktreeAdded) => {
            let system = st.transaction.thread.snapshot.build_system;
            ask(st, CommitPhase::CandidatePrepare, CommitAction::Prepare { system })
        },
        (CommitPhase::CandidatePrepare, CommitEvent::Prepared) => {
            let keys = list_keys(&st.candidates);
            match check_paths(&keys) {
                Err(e) => fail(st, e),
                Ok(_) => {
                    let candidates = st.candidates.copied();
                    ask(st, CommitPhase::Files, CommitAction::WriteFiles(candidates))
                },
            }
        },
        (CommitPhase::Files, CommitEvent::Written) => {
            let system = st.transaction.thread.snapshot.build_system;
            let launcher = st.transaction.thread.snapshot.build_launcher.clone();
            let compile_task = st.transaction.thread.snapshot.compile_task.clone();
            let tests = list_tests(&st.transaction);
            ask(
                st,
                CommitPhase::Build,
                CommitAction::Build { system, launcher, compile_task, tests },
            )
        },
        (CommitPhase::Build, CommitEvent::Built { compile_ms, test_ms }) => step_built(
            st,
            compile_ms,
            test_ms,
        ),
        (CommitPhase::Candidate, CommitEvent::Candidate(candidate)) => {
            let mut st = st;
            st.transaction.candidate_commit = Some(candidate.clone());
            st.transaction.status = "COMMITTING".to_owned();
            st.candidate = candidate;
            record(st, CommitPhase::RecordCandidate, "candidate commit created")
        },
        (CommitPhase::RecordCandidate, CommitEvent::Recorded) => {
            let compilation = st.transaction.thread.snapshot.compilation.clone();
            ask(
                st,
                CommitPhase::LiveModel,
                CommitAction::OpenProject { compilation, in_worktree: false },
            )
        },
        (_, event) => stop(st, event),
    }
}

/// The steps that hold the project of a candidate to that of its transaction.
#[verifier::opaque]
pub open spec fn models_stepped(st: CommitStateModel, event: CommitEventModel) -> CommitStep {
    match (st.phase, event) {
        (CommitPhase::LiveModel, CommitEventModel::Model(model)) => if model.str_at(
            "projectModelHash"@,
        ) != Some(st.transaction.project_model_hash) {
            fails(
                st,
                failure(
                    ErrorCode::ProjectModelChanged,
                    "live project model differs from transaction authority"@,
                ),
            )
        } else {
            asks(
                CommitStateModel { live_model: model, ..st },
                CommitPhase::CandidateModel,
                CommitActionModel::OpenProject {
                    compilation: st.transaction.thread.snapshot.compilation,
                    in_worktree: true,
                },
            )
        },
        (
            CommitPhase::CandidateModel,
            CommitEventModel::CandidateModel { model, before_stable, after_stable },
        ) => match transition_evidence(
            st.live_model,
            model,
            before_stable,
            after_stable,
            st.writes,
        ) {
            Err(e) => fails(st, e),
            Ok(transition) => asks(
                CommitStateModel { candidate_model: model, transition, ..st },
                CommitPhase::CandidateIndex,
                CommitActionModel::IndexFiles {
                    compilation: st.transaction.thread.snapshot.compilation,
                },
            ),
        },
        (CommitPhase::CandidateIndex, CommitEventModel::Indexed { project_model_hash }) => {
            if st.candidate_model.str_at("projectModelHash"@) != Some(project_model_hash) {
                fails(
                    st,
                    failure(
                        ErrorCode::ProjectModelChanged,
                        "candidate index project model differs from its live authority"@,
                    ),
                )
            } else {
                asks(
                    CommitStateModel {
                        transition: transition_verified(st.transition, project_model_hash),
                        ..st
                    },
                    CommitPhase::Stage,
                    CommitActionModel::StageIndex {
                        revision: st.candidate,
                        compilation: st.transaction.thread.snapshot.compilation,
                    },
                )
            }
        },
        _ => stops(st, event),
    }
}

/// The evidence of a change of the project, with the index that agrees with it.
pub open spec fn transition_verified(
    transition: Option<JsonModel>,
    project_model_hash: Seq<char>,
) -> Option<JsonModel> {
    match transition {
        Some(evidence) => Some(
            evidence.with(
                "candidateIndexProjectModelHash"@,
                JsonModel::Str(project_model_hash),
            ).with("status"@, JsonModel::Str("VERIFIED"@)),
        ),
        None => None,
    }
}

fn step_models(st: CommitState, event: CommitEvent) -> (r: (
    CommitState,
    Result<CommitAction, ClewError>,
))
    ensures
        (r.0.deep_view(), outcome(r.1)) == models_stepped(st.deep_view(), event.deep_view()),
{
    proof {
        reveal(models_stepped);
    }
    match (st.phase, event) {
        (CommitPhase::LiveModel, CommitEvent::Model(model)) => {
            if !names_model(&model, st.transaction.project_model_hash.as_str()) {
                let error = ClewError::new(
                    ErrorCode::ProjectModelChanged,
                    "live project model differs from transaction authority",
                );
                return fail(st, error);
            }
            let mut st = st;
            st.live_model = model;
            let compilation = st.transaction.thread.snapshot.compilation.clone();
            ask(
                st,
                CommitPhase::CandidateModel,
                CommitAction::OpenProject { compilation, in_worktree: true },
            )
        },
        (
            CommitPhase::CandidateModel,
            CommitEvent::CandidateModel { model, before_stable, after_stable },
        ) => match project_model_transition_evidence(
            &st.live_model,
            &model,
            before_stable.as_str(),
            after_stable.as_str(),
            &st.writes,
        ) {
            Err(e) => fail(st, e),
            Ok(transition) => {
                let mut st = st;
                st.candidate_model = model;
                st.transition = transition;
                let compilation = st.transaction.thread.snapshot.compilation.clone();
                ask(st, CommitPhase::CandidateIndex, CommitAction::IndexFiles { compilation })
            },
        },
        (CommitPhase::CandidateIndex, CommitEvent::Indexed { project_model_hash }) => {
            if !names_model(&st.candidate_model, project_model_hash.as_str()) {
                let error = ClewError::new(
                    ErrorCode::ProjectModelChanged,
                    "candidate index project model differs from its live authority",
                );
                return fail(st, error);
            }
            let mut st = st;
            let transition = st.transition.take();
            st.transition = match transition {
                Some(evidence) => Some(
                    evidence.with(
                        "candidateIndexProjectModelHash",
                        Json::Str(project_model_hash),
                    ).with("status", Json::Str("VERIFIED".to_owned())),
                ),
                None => None,
            };
            let revision = st.candidate.clone();
            let compilation = st.transaction.thread.snapshot.compilation.clone();
            ask(st, CommitPhase::Stage, CommitAction::StageIndex { revision, compilation })
        },
        (_, event) => stop(st, event),
    }
}

/// What the publication of an index has come to, as evidence.
pub open spec fn publication_evidence(st: CommitStateModel, synchronized: bool) -> JsonModel {
    JsonModel::object()
        .with("kind"@, JsonModel::Str("INDEX_PUBLICATION"@))
        .with("baseIndexSnapshot"@, JsonModel::Str(st.base_index))
        .with("finalIndexSnapshot"@, JsonModel::Str(st.index))
        .with("appliedInvalidations"@, <Vec<String> as Record>::json(st.invalidations))
        .with("worktreeSynchronized"@, JsonModel::Bool(synchronized))
}

fn say_publication(st: &CommitState, synchronized: bool) -> (r: Json)
    ensures
        r.deep_view() == publication_evidence(st.deep_view(), synchronized),
{
    Json::object()
        .with("kind", Json::Str("INDEX_PUBLICATION".to_owned()))
        .with("baseIndexSnapshot", Json::Str(st.base_index.clone()))
        .with("finalIndexSnapshot", Json::Str(st.index.clone()))
        .with("appliedInvalidations", st.invalidations.to_json())
        .with("worktreeSynchronized", Json::Bool(synchronized))
}

/// The step where a candidate is committed.
pub open spec fn candidate_committed(st: CommitStateModel, synchronized: bool) -> CommitStep {
    records(
        CommitStateModel {
            transaction: TransactionModel {
                validation_evidence: st.transaction.validation_evidence.push(
                    publication_evidence(st, synchronized),
                ),
                final_commit: Some(st.candidate),
                ..with_status(st.transaction, "COMMITTED"@)
            },
            ..st
        },
        CommitPhase::RecordCommitted,
        "target ref and index updated atomically"@,
    )
}

fn commit_candidate(st: CommitState, synchronized: bool) -> (r: (
    CommitState,
    Result<CommitAction, ClewError>,
))
    ensures
        (r.0.deep_view(), outcome(r.1)) == candidate_committed(st.deep_view(), synchronized),
{
    let mut st = st;
    let evidence = say_publication(&st, synchronized);
    push_evidence(&mut st.transaction, evidence);
    st.transaction.final_commit = Some(st.candidate.clone());
    st.transaction.status = "COMMITTED".to_owned();
    record(st, CommitPhase::RecordCommitted, "target ref and index updated atomically")
}

/// The steps that publish a candidate: the reference first, then the index. Where the
/// index cannot be published, the reference goes back.
#[verifier::opaque]
pub open spec fn publication_stepped(st: CommitStateModel, event: CommitEventModel) -> CommitStep {
    match (st.phase, event) {
        (CommitPhase::Stage, CommitEventModel::Staged) => asks(
            CommitStateModel {
                transition: None,
                transaction: TransactionModel {
                    validation_evidence: match st.transition {
                        Some(evidence) => st.transaction.validation_evidence.push(evidence),
                        None => st.transaction.validation_evidence,
                    },
                    ..st.transaction
                },
                ..st
            },
            CommitPhase::Reference,
            CommitActionModel::UpdateRef {
                reference: st.target_ref,
                to: st.candidate,
                from: st.current,
            },
        ),
        (CommitPhase::Reference, CommitEventModel::RefUpdated) => asks(
            st,
            CommitPhase::Publish,
            CommitActionModel::PublishIndex,
        ),
        (CommitPhase::Reference, CommitEventModel::Failed(_)) => fails(
            st,
            failure(
                ErrorCode::RefCompareAndSwapFailed,
                "target ref changed during commit CAS"@,
            ),
        ),
        (CommitPhase::Publish, CommitEventModel::IndexPublished { snapshot, invalidations }) => {
            let published = CommitStateModel { index: snapshot, invalidations, ..st };
            if st.clean {
                asks(
                    published,
                    CommitPhase::Synchronize,
                    CommitActionModel::Synchronize { revision: st.candidate },
                )
            } else {
                candidate_committed(published, false)
            }
        },
        (CommitPhase::Publish, CommitEventModel::Failed(error)) => asks(
            CommitStateModel { failure: Some(error), ..st },
            CommitPhase::Rollback,
            CommitActionModel::UpdateRef {
                reference: st.target_ref,
                to: st.current,
                from: st.candidate,
            },
        ),
        (CommitPhase::Synchronize, CommitEventModel::Synchronized) => candidate_committed(st, true),
        (CommitPhase::Synchronize, CommitEventModel::Failed(_)) => candidate_committed(st, false),
        _ => stops(st, event),
    }
}

fn step_publication(st: CommitState, event: CommitEvent) -> (r: (
    CommitState,
    Result<CommitAction, ClewError>,
))
    ensures
        (r.0.deep_view(), outcome(r.1)) == publication_stepped(st.deep_view(), event.deep_view()),
{
    proof {
        reveal(publication_stepped);
    }
    match (st.phase, event) {
        (CommitPhase::Stage, CommitEvent::Staged) => {
            let mut st = st;
            let transition = st.transition.take();
            match transition {
                Some(evidence) => {
                    push_evidence(&mut st.transaction, evidence);
                },
                None => {},
            }
            let reference = st.target_ref.clone();
            let to = st.candidate.clone();
            let from = st.current.clone();
            ask(st, CommitPhase::Reference, CommitAction::UpdateRef { reference, to, from })
        },
        (CommitPhase::Reference, CommitEvent::RefUpdated) => ask(
            st,
            CommitPhase::Publish,
            CommitAction::PublishIndex,
        ),
        (CommitPhase::Reference, CommitEvent::Failed(_)) => {
            let error = ClewError::new(
                ErrorCode::RefCompareAndSwapFailed,
                "target ref changed during commit CAS",
            );
            fail(st, error)
        },
        (CommitPhase::Publish, CommitEvent::IndexPublished { snapshot, invalidations }) => {
            let mut st = st;
            st.index = snapshot;
            st.invalidations = invalidations;
            if st.clean {
                let revision = st.candidate.clone();
                ask(st, CommitPhase::Synchronize, CommitAction::Synchronize { revision })
            } else {
                commit_candidate(st, false)
            }
        },
        (CommitPhase::Publish, CommitEvent::Failed(error)) => {
            let mut st = st;
            st.failure = Some(error);
            let reference = st.target_ref.clone();
            let to = st.current.clone();
            let from = st.candidate.clone();
            ask(st, CommitPhase::Rollback, CommitAction::UpdateRef { reference, to, from })
        },
        (CommitPhase::Synchronize, CommitEvent::Synchronized) => commit_candidate(st, true),
        (CommitPhase::Synchronize, CommitEvent::Failed(_)) => commit_candidate(st, false),
        (_, event) => stop(st, event),
    }
}

/// The step where the reference went back, or could not.
#[verifier::opaque]
pub open spec fn rollback_stepped(st: CommitStateModel, event: CommitEventModel) -> CommitStep {
    let told = CommitStateModel { failure: None, ..st };
    match (st.failure, event) {
        (Some(error), CommitEventModel::RefUpdated) => fails(
            told,
            failure(
                ErrorCode::Internal,
                "repository index publication failed; target ref was rolled back: "@
                    + error.message,
            ),
        ),
        (Some(error), CommitEventModel::Failed(_)) => fails(
            told,
            recovery_needed(
                failure(
                    ErrorCode::TransactionRecoveryRequired,
                    "index publication failed and target ref rollback also failed: "@
                        + error.message,
                ),
            ),
        ),
        _ => stops(told, event),
    }
}

fn step_rollback(st: CommitState, event: CommitEvent) -> (r: (
    CommitState,
    Result<CommitAction, ClewError>,
))
    ensures
        (r.0.deep_view(), outcome(r.1)) == rollback_stepped(st.deep_view(), event.deep_view()),
{
    proof {
        reveal(rollback_stepped);
    }
    let mut st = st;
    let failure = st.failure.take();
    match (failure, event) {
        (Some(error), CommitEvent::RefUpdated) => {
            let message = joined(
                "repository index publication failed; target ref was rolled back: ",
                error.message.as_str(),
            );
            fail(st, ClewError::new(ErrorCode::Internal, message.as_str()))
        },
        (Some(error), CommitEvent::Failed(_)) => {
            let message = joined(
                "index publication failed and target ref rollback also failed: ",
                error.message.as_str(),
            );
            let error = ClewError::new(ErrorCode::TransactionRecoveryRequired, message.as_str());
            fail(st, index_recovery_error(error))
        },
        (_, event) => stop(st, event),
    }
}

/// The report of a candidate that is committed.
pub open spec fn committed_report(st: CommitStateModel, recorded: bool) -> JsonModel {
    JsonModel::object()
        .with("schema"@, JsonModel::Str("semantic-commit/0.1"@))
        .with("transactionId"@, JsonModel::Str(st.transaction.tx_id))
        .with("baseRevision"@, JsonModel::Str(st.current))
        .with("baseIndexSnapshot"@, JsonModel::Str(st.base_index))
        .with("finalCommit"@, JsonModel::Str(st.candidate))
        .with("finalIndexSnapshot"@, JsonModel::Str(st.index))
        .with("appliedInvalidations"@, <Vec<String> as Record>::json(st.invalidations))
        .with("targetRef"@, JsonModel::Str(st.target_ref))
        .with("status"@, JsonModel::Str("COMMITTED"@))
        .with("gradleValidationDurationMs"@, JsonModel::Uint(st.validation_ms))
        .with("ledgerRecorded"@, JsonModel::Bool(recorded))
}

fn report_committed(st: &CommitState, recorded: bool) -> (r: Json)
    ensures
        r.deep_view() == committed_report(st.deep_view(), recorded),
{
    Json::object()
        .with("schema", Json::Str("semantic-commit/0.1".to_owned()))
        .with("transactionId", Json::Str(st.transaction.tx_id.clone()))
        .with("baseRevision", Json::Str(st.current.clone()))
        .with("baseIndexSnapshot", Json::Str(st.base_index.clone()))
        .with("finalCommit", Json::Str(st.candidate.clone()))
        .with("finalIndexSnapshot", Json::Str(st.index.clone()))
        .with("appliedInvalidations", st.invalidations.to_json())
        .with("targetRef", Json::Str(st.target_ref.clone()))
        .with("status", Json::Str("COMMITTED".to_owned()))
        .with("gradleValidationDurationMs", Json::Uint(st.validation_ms))
        .with("ledgerRecorded", Json::Bool(recorded))
}

/// The step behind the record of a candidate that is committed. That the record failed
/// makes no failure of what is committed.
#[verifier::opaque]
pub open spec fn committed_recorded(st: CommitStateModel, event: CommitEventModel) -> CommitStep {
    if is_record_answer(event) {
        finishes(st, committed_report(st, event is Recorded))
    } else {
        stops(st, event)
    }
}

fn step_committed_recorded(st: CommitState, event: CommitEvent) -> (r: (
    CommitState,
    Result<CommitAction, ClewError>,
))
    ensures
        (r.0.deep_view(), outcome(r.1)) == committed_recorded(st.deep_view(), event.deep_view()),
{
    proof {
        reveal(committed_recorded);
    }
    match event {
        CommitEvent::Recorded => {
            let report = report_committed(&st, true);
            finish(st, report)
        },
        CommitEvent::Unrecorded(_) => {
            let report = report_committed(&st, false);
            finish(st, report)
        },
        CommitEvent::Failed(_) => {
            let report = report_committed(&st, false);
            finish(st, report)
        },
        _ => stop(st, event),
    }
}

/// A step of a commit.
pub open spec fn commit_stepped(st: CommitStateModel, event: CommitEventModel) -> CommitStep {
    match st.phase {
        CommitPhase::Begin => begin_stepped(st, event),
        CommitPhase::Target => target_stepped(st, event),
        CommitPhase::Index => index_stepped(st, event),
        CommitPhase::History => history_stepped(st, event),
        CommitPhase::Revision => existing_stepped(st, event),
        CommitPhase::PublishedIndex => existing_stepped(st, event),
        CommitPhase::RecoveryWorktree => existing_stepped(st, event),
        CommitPhase::RecoveryPrepare => existing_stepped(st, event),
        CommitPhase::RecoveryStage => existing_stepped(st, event),
        CommitPhase::RecoveryPublish => existing_stepped(st, event),
        CommitPhase::RecordExisting => existing_recorded(st, event),
        CommitPhase::RecordRebasing => preview_stepped(st, event),
        CommitPhase::ReplayWorktree => preview_stepped(st, event),
        CommitPhase::ReplayPrepare => preview_stepped(st, event),
        CommitPhase::ReplayModel => replay_model_stepped(st, event),
        CommitPhase::ReplayReads => replay_reads_stepped(st, event),
        CommitPhase::Preview => preview_stepped(st, event),
        CommitPhase::ReplayPreview => preview_stepped(st, event),
        CommitPhase::RecordStale => stale_recorded(st, event),
        CommitPhase::RecordValidated => validated_recorded(st, event),
        CommitPhase::RecordNothing => candidate_stepped(st, event),
        CommitPhase::CandidateWorktree => candidate_stepped(st, event),
        CommitPhase::CandidatePrepare => candidate_stepped(st, event),
        CommitPhase::Files => candidate_stepped(st, event),
        CommitPhase::Build => candidate_stepped(st, event),
        CommitPhase::Candidate => candidate_stepped(st, event),
        CommitPhase::RecordCandidate => candidate_stepped(st, event),
        CommitPhase::LiveModel => models_stepped(st, event),
        CommitPhase::CandidateModel => models_stepped(st, event),
        CommitPhase::CandidateIndex => models_stepped(st, event),
        CommitPhase::Stage => publication_stepped(st, event),
        CommitPhase::Reference => publication_stepped(st, event),
        CommitPhase::Publish => publication_stepped(st, event),
        CommitPhase::Rollback => rollback_stepped(st, event),
        CommitPhase::Synchronize => publication_stepped(st, event),
        CommitPhase::RecordCommitted => committed_recorded(st, event),
        CommitPhase::Done => stops(st, event),
    }
}

/// Takes a commit one step on. It starts with [`CommitState::start`] and the event that
/// names the target; what it asks for is told to it in the next event, until it ends with
/// a report or an error. What becomes of the transaction stands in the state, also where
/// the commit ends with an error.
pub fn commit(st: CommitState, event: CommitEvent) -> (r: (
    CommitState,
    Result<CommitAction, ClewError>,
))
    requires
        event is Built ==> event->compile_ms + event->test_ms <= u64::MAX,
    ensures
        (r.0.deep_view(), outcome(r.1)) == commit_stepped(st.deep_view(), event.deep_view()),
{
    match st.phase {
        CommitPhase::Begin => step_begin(st, event),
        CommitPhase::Target => step_target(st, event),
        CommitPhase::Index => step_index(st, event),
        CommitPhase::History => step_history(st, event),
        CommitPhase::Revision => step_existing(st, event),
        CommitPhase::PublishedIndex => step_existing(st, event),
        CommitPhase::RecoveryWorktree => step_existing(st, event),
        CommitPhase::RecoveryPrepare => step_existing(st, event),
        CommitPhase::RecoveryStage => step_existing(st, event),
        CommitPhase::RecoveryPublish => step_existing(st, event),
        CommitPhase::RecordExisting => step_existing_recorded(st, event),
        CommitPhase::RecordRebasing => step_preview(st, event),
        CommitPhase::ReplayWorktree => step_preview(st, event),
        CommitPhase::ReplayPrepare => step_preview(st, event),
        CommitPhase::ReplayModel => step_replay_model(st, event),
        CommitPhase::ReplayReads => step_replay_reads(st, event),
        CommitPhase::Preview => step_preview(st, event),
        CommitPhase::ReplayPreview => step_preview(st, event),
        CommitPhase::RecordStale => step_stale_recorded(st, event),
        CommitPhase::RecordValidated => step_validated_recorded(st, event),
        CommitPhase::RecordNothing => step_candidate(st, event),
        CommitPhase::CandidateWorktree => step_candidate(st, event),
        CommitPhase::CandidatePrepare => step_candidate(st, event),
        CommitPhase::Files => step_candidate(st, event),
        CommitPhase::Build => step_candidate(st, event),
        CommitPhase::Candidate => step_candidate(st, event),
        CommitPhase::RecordCandidate => step_candidate(st, event),
        CommitPhase::LiveModel => step_models(st, event),
        CommitPhase::CandidateModel => step_models(st, event),
        CommitPhase::CandidateIndex => step_models(st, event),
        CommitPhase::Stage => step_publication(st, event),
        CommitPhase::Reference => step_publication(st, event),
        CommitPhase::Publish => step_publication(st, event),
        CommitPhase::Rollback => step_rollback(st, event),
        CommitPhase::Synchronize => step_publication(st, event),
        CommitPhase::RecordCommitted => step_committed_recorded(st, event),
        CommitPhase::Done => stop(st, event),
    }
}

/// Whether what a transaction is asked to do has stayed the same, and what it rests on has
/// only grown.
pub open spec fn keeps_edit(before: TransactionModel, after: TransactionModel) -> bool {
    &&& after.tx_id == before.tx_id
    &&& after.intent == before.intent
    &&& after.base_revision == before.base_revision
    &&& after.project_model_hash == before.project_model_hash
    &&& after.thread == before.thread
    &&& after.required_threads == before.required_threads
    &&& after.edit == before.edit
    &&& after.test_tasks == before.test_tasks
    &&& before.validation_evidence.is_prefix_of(after.validation_evidence)
}

/// Whether a step of a commit commits a transaction, that was not committed, in one of three
/// ways only: its commit is in the history of the target, and the index follows the target;
/// nothing was to change; or the target names its candidate and the index was published
/// behind it. And whether it publishes the candidate in that order only: the reference first,
/// compared with what it was, then the index.
pub open spec fn publishes_in_order(st: CommitStateModel, event: CommitEventModel) -> bool {
    let next = commit_stepped(st, event).0;
    &&& next.transaction.status == "COMMITTED"@ && st.transaction.status != "COMMITTED"@ ==> {
        ||| next.transaction.final_commit == Some(st.existing) && (event is PublishedIndex || (
        st.phase == CommitPhase::RecoveryPublish && event is IndexPublished))
        ||| next.transaction.final_commit == Some(st.current) && keys_of(st.candidates).len() == 0
            && st.phase == CommitPhase::RecordValidated
        ||| next.transaction.final_commit == Some(st.candidate) && ((st.phase
            == CommitPhase::Publish && event is IndexPublished) || st.phase
            == CommitPhase::Synchronize)
    }
    &&& next.phase == CommitPhase::Synchronize ==> st.phase == CommitPhase::Publish
        && event is IndexPublished
    &&& next.phase == CommitPhase::Publish ==> st.phase == CommitPhase::Reference
        && event is RefUpdated
    &&& next.phase == CommitPhase::Reference ==> st.phase == CommitPhase::Stage && commit_stepped(
        st,
        event,
    ).1 == Ok::<CommitActionModel, ErrorModel>(
        CommitActionModel::UpdateRef {
            reference: st.target_ref,
            to: st.candidate,
            from: st.current,
        },
    )
}

/// Whether a step previews an edit on the repository only where the target is where the
/// transaction started; where it has moved, the edit is replayed at the target, in the same
/// project and with the same reads.
pub open spec fn replays_moved_targets(st: CommitStateModel, event: CommitEventModel) -> bool {
    match commit_stepped(st, event).1 {
        Ok(CommitActionModel::Preview { thread, edit, in_worktree }) => if in_worktree {
            &&& thread == thread_at(st.transaction.thread, st.current)
            &&& edit == edit_at(st.transaction.edit, st.current)
            &&& event matches CommitEventModel::Rebuilt { threads, sources }
            &&& reads_checked(
                st.transaction,
                sources,
                threads_of(st.transaction),
                threads,
                0,
            ) is Ok
        } else {
            &&& st.current == st.transaction.base_revision
            &&& thread == st.transaction.thread
            &&& edit == st.transaction.edit
        },
        _ => true,
    }
}

/// Whether a step makes a worktree of the target as it is only, and stages an index for the
/// target where the transaction is in its history already, never for an older commit of the
/// transaction, and else for the candidate, each for the compilation of the transaction.
pub open spec fn follows_the_target(st: CommitStateModel, event: CommitEventModel) -> bool {
    match commit_stepped(st, event).1 {
        Ok(CommitActionModel::AddWorktree { revision }) => revision == st.current,
        Ok(CommitActionModel::StageIndex { revision, compilation }) => {
            &&& compilation == st.transaction.thread.snapshot.compilation
            &&& revision == if st.phase == CommitPhase::RecoveryPrepare {
                st.current
            } else {
                st.candidate
            }
        },
        _ => true,
    }
}

proof fn unfinished_is_not_committed()
    ensures
        "COMMITTED"@ != "REBASING"@,
        "COMMITTED"@ != "STALE_REQUIRES_RESLICE"@,
        "COMMITTED"@ != "VALIDATED"@,
        "COMMITTED"@ != "COMMITTING"@,
{
    reveal_strlit("COMMITTED");
    reveal_strlit("REBASING");
    reveal_strlit("STALE_REQUIRES_RESLICE");
    reveal_strlit("VALIDATED");
    reveal_strlit("COMMITTING");
    assert("VALIDATED"@[0] != "COMMITTED"@[0]);
    assert("COMMITTED"@.len() == 9);
    assert("COMMITTING"@.len() == 10);
}

/// What every step of a commit keeps to.
#[verifier::rlimit(60)]
proof fn steps_keep_to_the_laws(st: CommitStateModel, event: CommitEventModel)
    ensures
        keeps_edit(st.transaction, commit_stepped(st, event).0.transaction),
        publishes_in_order(st, event),
        replays_moved_targets(st, event),
        follows_the_target(st, event),
{
    unfinished_is_not_committed();
    match st.phase {
        CommitPhase::Begin => {
            reveal(begin_stepped);
        },
        CommitPhase::Target => {
            reveal(target_stepped);
        },
        CommitPhase::Index => {
            reveal(index_stepped);
        },
        CommitPhase::History => {
            reveal(history_stepped);
        },
        CommitPhase::Revision | CommitPhase::PublishedIndex | CommitPhase::RecoveryWorktree
        | CommitPhase::RecoveryPrepare | CommitPhase::RecoveryStage
        | CommitPhase::RecoveryPublish => {
            reveal(existing_stepped);
        },
        CommitPhase::RecordExisting => {
            reveal(existing_recorded);
        },
        CommitPhase::RecordRebasing | CommitPhase::ReplayWorktree | CommitPhase::ReplayPrepare
        | CommitPhase::Preview | CommitPhase::ReplayPreview => {
            reveal(preview_stepped);
        },
        CommitPhase::ReplayModel => {
            reveal(replay_model_stepped);
        },
        CommitPhase::ReplayReads => {
            reveal(replay_reads_stepped);
        },
        CommitPhase::RecordStale => {
            reveal(stale_recorded);
        },
        CommitPhase::RecordValidated => {
            reveal(validated_recorded);
        },
        CommitPhase::RecordNothing | CommitPhase::CandidateWorktree
        | CommitPhase::CandidatePrepare | CommitPhase::Files | CommitPhase::Build
        | CommitPhase::Candidate | CommitPhase::RecordCandidate => {
            reveal(candidate_stepped);
        },
        CommitPhase::LiveModel | CommitPhase::CandidateModel | CommitPhase::CandidateIndex => {
            reveal(models_stepped);
        },
        CommitPhase::Stage | CommitPhase::Reference | CommitPhase::Publish
        | CommitPhase::Synchronize => {
            reveal(publication_stepped);
        },
        CommitPhase::Rollback => {
            reveal(rollback_stepped);
        },
        CommitPhase::RecordCommitted => {
            reveal(committed_recorded);
        },
        CommitPhase::Done => {},
    }
}

/// No step of a commit changes what its transaction is asked to do, and none takes back
/// what was found.
pub proof fn commits_keep_the_edit(st: CommitStateModel, event: CommitEventModel)
    ensures
        keeps_edit(st.transaction, commit_stepped(st, event).0.transaction),
{
    steps_keep_to_the_laws(st, event);
}

/// A transaction becomes committed in one of three ways only, and its candidate is published
/// with the reference first, then the index.
pub proof fn committed_means_published(st: CommitStateModel, event: CommitEventModel)
    ensures
        publishes_in_order(st, event),
{
    steps_keep_to_the_laws(st, event);
}

/// What was published is reported as committed, whatever becomes of the record of it.
pub proof fn published_commits_are_reported(st: CommitStateModel, event: CommitEventModel)
    requires
        st.phase == CommitPhase::RecordExisting || st.phase == CommitPhase::RecordCommitted,
        is_record_answer(event),
    ensures
        commit_stepped(st, event) == finishes(
            st,
            if st.phase == CommitPhase::RecordExisting {
                existing_report(st, event is Recorded)
            } else {
                committed_report(st, event is Recorded)
            },
        ),
{
    reveal(existing_recorded);
    reveal(committed_recorded);
}

/// An edit is previewed on the repository only where the target has not moved, and is
/// replayed at the target where it has.
pub proof fn moved_targets_are_replayed(st: CommitStateModel, event: CommitEventModel)
    ensures
        replays_moved_targets(st, event),
{
    steps_keep_to_the_laws(st, event);
}

/// Worktrees and indexes are those of the target, or of the candidate for it.
pub proof fn indexes_follow_the_target(st: CommitStateModel, event: CommitEventModel)
    ensures
        follows_the_target(st, event),
{
    steps_keep_to_the_laws(st, event);
}

} // verus!
