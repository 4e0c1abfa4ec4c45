//! The ledger of transactions: what is written of them, and how an inspection settles one
//! that was left unfinished.

use vstd::prelude::*;
use vstd::string::*;

use crate::commit::{digest_edit, edit_digest, index_recovery_error, recovery_needed, with_status};
use crate::edit::{BuildSystem, Transaction, TransactionModel};
use crate::error::{failure, outcome, ClewError, ErrorCode, ErrorModel};
use crate::history::{
    contains_line, edit_trailer, find_transaction_commit, has_line, id_trailer, transaction_commit,
};
use crate::json::{canonical_bytes, member_of_with, Json, JsonModel};
use crate::model_input::{between, framed};
use crate::record::Record;
use crate::text::{copy_bytes, joined, same_bytes, same_text};

verus! {

/// An event of a ledger, as it is shown.
#[derive(Debug, PartialEq, Eq)]
pub struct LedgerEvent {
    pub sequence: u64,
    pub status: String,
    pub timestamp: String,
    pub evidence: String,
}

/// The model of a [`LedgerEvent`].
pub struct LedgerEventModel {
    pub sequence: u64,
    pub status: Seq<char>,
    pub timestamp: Seq<char>,
    pub evidence: Seq<char>,
}

impl DeepView for LedgerEvent {
    type V = LedgerEventModel;

    open spec fn deep_view(&self) -> LedgerEventModel {
        LedgerEventModel {
            sequence: self.sequence.deep_view(),
            status: self.status.deep_view(),
            timestamp: self.timestamp.deep_view(),
            evidence: self.evidence.deep_view(),
        }
    }
}

impl Record for LedgerEvent {
    open spec fn json(v: LedgerEventModel) -> JsonModel {
        JsonModel::object()
            .with("sequence"@, <u64 as Record>::json(v.sequence))
            .with("status"@, <String as Record>::json(v.status))
            .with("timestamp"@, <String as Record>::json(v.timestamp))
            .with("evidence"@, <String as Record>::json(v.evidence))
    }

    fn copied(&self) -> (r: LedgerEvent) {
        LedgerEvent {
            sequence: self.sequence.copied(),
            status: self.status.copied(),
            timestamp: self.timestamp.copied(),
            evidence: self.evidence.copied(),
        }
    }

    fn same_as(&self, other: &LedgerEvent) -> (r: bool) {
        self.sequence.same_as(&other.sequence)
            && self.status.same_as(&other.status)
            && self.timestamp.same_as(&other.timestamp)
            && self.evidence.same_as(&other.evidence)
    }

    fn to_json(&self) -> (r: Json) {
        Json::object()
            .with("sequence", self.sequence.to_json())
            .with("status", self.status.to_json())
            .with("timestamp", self.timestamp.to_json())
            .with("evidence", self.evidence.to_json())
    }
}

/// An event of a ledger, as it is written.
pub struct LedgerEntry {
    pub tx_id: String,
    pub status: String,
    pub record: Vec<u8>,
    pub evidence: String,
}

/// The model of a [`LedgerEntry`].
pub struct LedgerEntryModel {
    pub tx_id: Seq<char>,
    pub status: Seq<char>,
    pub record: Seq<u8>,
    pub evidence: Seq<char>,
}

impl DeepView for LedgerEntry {
    type V = LedgerEntryModel;

    open spec fn deep_view(&self) -> LedgerEntryModel {
        LedgerEntryModel {
            tx_id: self.tx_id.deep_view(),
            status: self.status.deep_view(),
            record: self.record@,
            evidence: self.evidence.deep_view(),
        }
    }
}

impl LedgerEntry {
    /// Another value with the same contents.
    pub fn copied(&self) -> (r: LedgerEntry)
        ensures
            r.deep_view() == self.deep_view(),
    {
        LedgerEntry {
            tx_id: self.tx_id.copied(),
            status: self.status.copied(),
            record: copy_bytes(&self.record),
            evidence: self.evidence.copied(),
        }
    }

    /// Whether two values have the same contents.
    pub fn same_as(&self, other: &LedgerEntry) -> (r: bool)
        ensures
            r == (self.deep_view() == other.deep_view()),
    {
        self.tx_id.same_as(&other.tx_id)
            && self.status.same_as(&other.status)
            && same_bytes(self.record.as_slice(), other.record.as_slice())
            && self.evidence.same_as(&other.evidence)
    }
}

/// What an inspection waits for.
#[derive(Clone, Copy, Debug, PartialEq, Eq, Structural)]
pub enum InspectPhase {
    Latest,
    Target,
    History,
    Revision,
    RecoveryWorker,
    RecoveryWorktree,
    RecoveryPrepare,
    RecoveryStage,
    RecoveryPublish,
    Message,
    Parent,
    CandidateWorker,
    CandidateWorktree,
    CandidatePrepare,
    CandidateStage,
    CandidateReference,
    CandidatePublish,
    Rollback,
    Record,
    Events,
    Done,
}

impl DeepView for InspectPhase {
    type V = InspectPhase;

    open spec fn deep_view(&self) -> InspectPhase {
        *self
    }
}

/// How far an inspection has come.
pub struct InspectState {
    pub id: String,
    pub phase: InspectPhase,
    pub transaction: Option<Transaction>,
    pub status: String,
    pub action: String,
    pub target: String,
    pub commit: String,
    pub failure: Option<ClewError>,
}

/// The model of a [`InspectState`].
pub struct InspectStateModel {
    pub id: Seq<char>,
    pub phase: InspectPhase,
    pub transaction: Option<TransactionModel>,
    pub status: Seq<char>,
    pub action: Seq<char>,
    pub target: Seq<char>,
    pub commit: Seq<char>,
    pub failure: Option<ErrorModel>,
}

impl DeepView for InspectState {
    type V = InspectStateModel;

    open spec fn deep_view(&self) -> InspectStateModel {
        InspectStateModel {
            id: self.id.deep_view(),
            phase: self.phase.deep_view(),
            transaction: self.transaction.deep_view(),
            status: self.status.deep_view(),
            action: self.action.deep_view(),
            target: self.target.deep_view(),
            commit: self.commit.deep_view(),
            failure: self.failure.deep_view(),
        }
    }
}

/// What an inspection is told.
pub enum InspectEvent {
    Missing,
    Latest { status: String, transaction: Transaction },
    Target(String),
    History(String),
    Revision(Option<String>),
    WorkerStarted,
    WorktreeAdded,
    Prepared,
    Staged,
    IndexPublished { snapshot: String, invalidations: Vec<String> },
    Message(String),
    Parent { parent: String, current: String },
    RefUpdated,
    Recorded,
    Events(Vec<LedgerEvent>),
    Failed(ClewError),
}

/// The model of a [`InspectEvent`].
pub enum InspectEventModel {
    Missing,
    Latest { status: Seq<char>, transaction: TransactionModel },
    Target(Seq<char>),
    History(Seq<char>),
    Revision(Option<Seq<char>>),
    WorkerStarted,
    WorktreeAdded,
    Prepared,
    Staged,
    IndexPublished { snapshot: Seq<char>, invalidations: Seq<Seq<char>> },
    Message(Seq<char>),
    Parent { parent: Seq<char>, current: Seq<char> },
    RefUpdated,
    Recorded,
    Events(Seq<LedgerEventModel>),
    Failed(ErrorModel),
}

impl DeepView for InspectEvent {
    type V = InspectEventModel;

    open spec fn deep_view(&self) -> InspectEventModel {
        match self {
            InspectEvent::Missing => InspectEventModel::Missing,
            InspectEvent::Latest { status, transaction } => InspectEventModel::Latest {
                status: status.deep_view(),
                transaction: transaction.deep_view(),
            },
            InspectEvent::Target(x) => InspectEventModel::Target(x.deep_view()),
            InspectEvent::History(x) => InspectEventModel::History(x.deep_view()),
            InspectEvent::Revision(x) => InspectEventModel::Revision(x.deep_view()),
            InspectEvent::WorkerStarted => InspectEventModel::WorkerStarted,
            InspectEvent::WorktreeAdded => InspectEventModel::WorktreeAdded,
            InspectEvent::Prepared => InspectEventModel::Prepared,
            InspectEvent::Staged => InspectEventModel::Staged,
            InspectEvent::IndexPublished { snapshot, invalidations } => InspectEventModel::IndexPublished {
                snapshot: snapshot.deep_view(),
                invalidations: invalidations.deep_view(),
            },
            InspectEvent::Message(x) => InspectEventModel::Message(x.deep_view()),
            InspectEvent::Parent { parent, current } => InspectEventModel::Parent {
                parent: parent.deep_view(),
                current: current.deep_view(),
            },
            InspectEvent::RefUpdated => InspectEventModel::RefUpdated,
            InspectEvent::Recorded => InspectEventModel::Recorded,
            InspectEvent::Events(x) => InspectEventModel::Events(x.deep_view()),
            InspectEvent::Failed(x) => InspectEventModel::Failed(x.deep_view()),
        }
    }
}

/// What an inspection asks for. A worktree that is spoken of is the one that was added last.
pub enum InspectAction {
    ReadTarget { reference: String },
    ScanHistory { revision: String },
    ReadRevision { compilation: String },
    StartWorker,
    AddWorktree { revision: String },
    Prepare { system: BuildSystem },
    StageIndex { revision: String, compilation: String },
    PublishIndex,
    ReadMessage { commit: String },
    ReadParent { commit: String, reference: String },
    UpdateRef { reference: String, to: String, from: String },
    Record { evidence: String },
    ReadEvents,
    Finish(Json),
}

/// The model of a [`InspectAction`].
pub enum InspectActionModel {
    ReadTarget { reference: Seq<char> },
    ScanHistory { revision: Seq<char> },
    ReadRevision { compilation: Seq<char> },
    StartWorker,
    AddWorktree { revision: Seq<char> },
    Prepare { system: BuildSystem },
    StageIndex { revision: Seq<char>, compilation: Seq<char> },
    PublishIndex,
    ReadMessage { commit: Seq<char> },
    ReadParent { commit: Seq<char>, reference: Seq<char> },
    UpdateRef { reference: Seq<char>, to: Seq<char>, from: Seq<char> },
    Record { evidence: Seq<char> },
    ReadEvents,
    Finish(JsonModel),
}

impl DeepView for InspectAction {
    type V = InspectActionModel;

    open spec fn deep_view(&self) -> InspectActionModel {
        match self {
            InspectAction::ReadTarget { reference } => InspectActionModel::ReadTarget {
                reference: reference.deep_view(),
            },
            InspectAction::ScanHistory { revision } => InspectActionModel::ScanHistory {
                revision: revision.deep_view(),
            },
            InspectAction::ReadRevision { compilation } => InspectActionModel::ReadRevision {
                compilation: compilation.deep_view(),
            },
            InspectAction::StartWorker => InspectActionModel::StartWorker,
            InspectAction::AddWorktree { revision } => InspectActionModel::AddWorktree {
                revision: revision.deep_view(),
            },
            InspectAction::Prepare { system } => InspectActionModel::Prepare {
                system: system.deep_view(),
            },
            InspectAction::StageIndex { revision, compilation } => InspectActionModel::StageIndex {
                revision: revision.deep_view(),
                compilation: compilation.deep_view(),
            },
            InspectAction::PublishIndex => InspectActionModel::PublishIndex,
            InspectAction::ReadMessage { commit } => InspectActionModel::ReadMessage {
                commit: commit.deep_view(),
            },
            InspectAction::ReadParent { commit, reference } => InspectActionModel::ReadParent {
                commit: commit.deep_view(),
                reference: reference.deep_view(),
            },
            InspectAction::UpdateRef { reference, to, from } => InspectActionModel::UpdateRef {
                reference: reference.deep_view(),
                to: to.deep_view(),
                from: from.deep_view(),
            },
            InspectAction::Record { evidence } => InspectActionModel::Record {
                evidence: evidence.deep_view(),
            },
            InspectAction::ReadEvents => InspectActionModel::ReadEvents,
            InspectAction::Finish(x) => InspectActionModel::Finish(x.deep_view()),
        }
    }
}

/// The event that is written of a transaction.
pub open spec fn entry_of(t: TransactionModel, evidence: Seq<char>) -> LedgerEntryModel {
    LedgerEntryModel {
        tx_id: t.tx_id,
        status: t.status,
        record: canonical_bytes(<Transaction as Record>::json(t)),
        evidence,
    }
}

/// The event that is written of a transaction.
pub fn entry(t: &Transaction, evidence: &str) -> (r: LedgerEntry)
    ensures
        r.deep_view() == entry_of(t.deep_view(), evidence@),
{
    LedgerEntry {
        tx_id: t.tx_id.clone(),
        status: t.status.clone(),
        record: t.to_json().bytes(),
        evidence: evidence.to_owned(),
    }
}

/// Whether a status is one that a transaction stays in.
pub open spec fn is_terminal(status: Seq<char>) -> bool {
    status == "COMMITTED"@ || status == "CONFLICTED"@ || status == "STALE_REQUIRES_RESLICE"@
        || status == "VALIDATION_FAILED"@ || status == "ABORTED"@
}

/// Whether a status is one that a transaction stays in.
pub fn terminal(status: &str) -> (r: bool)
    ensures
        r == is_terminal(status@),
{
    same_text(status, "COMMITTED") || same_text(status, "CONFLICTED") || same_text(
        status,
        "STALE_REQUIRES_RESLICE",
    ) || same_text(status, "VALIDATION_FAILED") || same_text(status, "ABORTED")
}

/// Whether a status is one of a transaction that has published nothing.
pub open spec fn is_before_publication(status: Seq<char>) -> bool {
    status == "CREATED"@ || status == "SLICED"@ || status == "EDIT_PREVIEWED"@ || status
        == "VALIDATING"@ || status == "VALIDATED"@ || status == "REBASING"@
}

fn before_publication(status: &str) -> (r: bool)
    ensures
        r == is_before_publication(status@),
{
    same_text(status, "CREATED") || same_text(status, "SLICED") || same_text(
        status,
        "EDIT_PREVIEWED",
    ) || same_text(status, "VALIDATING") || same_text(status, "VALIDATED") || same_text(
        status,
        "REBASING",
    )
}

/// A step of an inspection: how far it has come, and what it asks for next or why it ends.
pub type InspectStep = (InspectStateModel, Result<InspectActionModel, ErrorModel>);

/// The step to a phase with something to ask for.
pub open spec fn asks(
    st: InspectStateModel,
    phase: InspectPhase,
    action: InspectActionModel,
) -> InspectStep {
    (InspectStateModel { phase, ..st }, Ok(action))
}

/// The step that ends with an error.
pub open spec fn fails(st: InspectStateModel, error: ErrorModel) -> InspectStep {
    (InspectStateModel { phase: InspectPhase::Done, ..st }, Err(error))
}

/// The step where something was told that was not asked for, or could not be had.
pub open spec fn stops(st: InspectStateModel, event: InspectEventModel) -> InspectStep {
    match event {
        InspectEventModel::Failed(error) => fails(st, error),
        _ => fails(
            st,
            failure(ErrorCode::Internal, "inspection was told what it did not ask for"@),
        ),
    }
}

fn ask(st: InspectState, phase: InspectPhase, action: InspectAction) -> (r: (
    InspectState,
    Result<InspectAction, ClewError>,
))
    ensures
        (r.0.deep_view(), outcome(r.1)) == asks(st.deep_view(), phase, action.deep_view()),
{
    let mut st = st;
    st.phase = phase;
    (st, Ok(action))
}

fn fail(st: InspectState, error: ClewError) -> (r: (
    InspectState,
    Result<InspectAction, ClewError>,
))
    ensures
        (r.0.deep_view(), outcome(r.1)) == fails(st.deep_view(), error.deep_view()),
{
    let mut st = st;
    st.phase = InspectPhase::Done;
    (st, Err(error))
}

fn stop(st: InspectState, event: InspectEvent) -> (r: (
    InspectState,
    Result<InspectAction, ClewError>,
))
    ensures
        (r.0.deep_view(), outcome(r.1)) == stops(st.deep_view(), event.deep_view()),
{
    match event {
        InspectEvent::Failed(error) => fail(st, error),
        _ => {
            let error = ClewError::new(
                ErrorCode::Internal,
                "inspection was told what it did not ask for",
            );
            fail(st, error)
        },
    }
}

/// The start of an inspection.
pub open spec fn inspection_started(id: Seq<char>) -> InspectStateModel {
    InspectStateModel {
        id,
        phase: InspectPhase::Latest,
        transaction: None,
        status: Seq::empty(),
        action: "NONE"@,
        target: Seq::empty(),
        commit: Seq::empty(),
        failure: None,
    }
}

impl InspectState {
    /// The start of an inspection, which waits for the last event of a transaction.
    pub fn start(id: &str) -> (r: InspectState)
        ensures
            r.deep_view() == inspection_started(id@),
    {
        let r = InspectState {
            id: id.to_owned(),
            phase: InspectPhase::Latest,
            transaction: None,
            status: String::new(),
            action: "NONE".to_owned(),
            target: String::new(),
            commit: String::new(),
            failure: None,
        };
        assert(r.status@ =~= Seq::empty());
        assert(r.target@ =~= Seq::empty());
        assert(r.commit@ =~= Seq::empty());
        r
    }
}

/// The step that settles a transaction, and records it.
pub open spec fn settles(
    st: InspectStateModel,
    t: TransactionModel,
    status: Seq<char>,
    action: Seq<char>,
    evidence: Seq<char>,
) -> InspectStep {
    asks(
        InspectStateModel {
            transaction: Some(with_status(t, status)),
            status,
            action,
            ..st
        },
        InspectPhase::Record,
        InspectActionModel::Record { evidence },
    )
}

fn settle(st: InspectState, t: Transaction, status: &str, action: &str, evidence: &str) -> (r: (
    InspectState,
    Result<InspectAction, ClewError>,
))
    ensures
        (r.0.deep_view(), outcome(r.1)) == settles(
            st.deep_view(),
            t.deep_view(),
            status@,
            action@,
            evidence@,
        ),
{
    let mut st = st;
    let mut t = t;
    t.status = status.to_owned();
    st.transaction = Some(t);
    st.status = status.to_owned();
    st.action = action.to_owned();
    ask(st, InspectPhase::Record, InspectAction::Record { evidence: evidence.to_owned() })
}

/// The step that gives up a candidate that is not there as it should be.
pub open spec fn gives_up(
    st: InspectStateModel,
    t: TransactionModel,
    reason: Seq<char>,
) -> InspectStep {
    settles(st, t, "ABORTED"@, "RECOVERED_ABORTED_CANDIDATE_MISSING"@, reason)
}

fn give_up(st: InspectState, t: Transaction, reason: &str) -> (r: (
    InspectState,
    Result<InspectAction, ClewError>,
))
    ensures
        (r.0.deep_view(), outcome(r.1)) == gives_up(st.deep_view(), t.deep_view(), reason@),
{
    settle(st, t, "ABORTED", "RECOVERED_ABORTED_CANDIDATE_MISSING", reason)
}

/// The step for a transaction whose commit no history shows: one with a candidate is
/// recovered, any other is aborted.
pub open spec fn unfinished(st: InspectStateModel, t: TransactionModel) -> InspectStep {
    if st.status == "COMMITTING"@ {
        match (t.candidate_commit, t.target_ref) {
            (None, _) => gives_up(
                st,
                t,
                "COMMITTING record has no candidate commit; no ref was changed"@,
            ),
            (Some(_), None) => gives_up(
                st,
                t,
                "COMMITTING record has no target ref; candidate left unpublished"@,
            ),
            (Some(commit), Some(_)) => asks(
                InspectStateModel { commit, transaction: Some(t), ..st },
                InspectPhase::Message,
                InspectActionModel::ReadMessage { commit },
            ),
        }
    } else if is_before_publication(st.status) {
        settles(
            st,
            t,
            "ABORTED"@,
            "RECOVERED_ABORTED_NO_REF_CHANGE"@,
            "recovered unfinished pre-publication transaction as aborted"@,
        )
    } else {
        settles(
            st,
            t,
            "ABORTED"@,
            "RECOVERED_ABORTED_UNKNOWN_STATE"@,
            "recovered unknown unfinished state as aborted"@,
        )
    }
}

fn leave_unfinished(st: InspectState, t: Transaction) -> (r: (
    InspectState,
    Result<InspectAction, ClewError>,
))
    ensures
        (r.0.deep_view(), outcome(r.1)) == unfinished(st.deep_view(), t.deep_view()),
{
    if same_text(st.status.as_str(), "COMMITTING") {
        let commit = match &t.candidate_commit {
            Some(commit) => commit.clone(),
            None => {
                return give_up(
                    st,
                    t,
                    "COMMITTING record has no candidate commit; no ref was changed",
                );
            },
        };
        if t.target_ref.is_none() {
            return give_up(
                st,
                t,
                "COMMITTING record has no target ref; candidate left unpublished",
            );
        }
        let mut st = st;
        st.commit = commit.clone();
        st.transaction = Some(t);
        ask(st, InspectPhase::Message, InspectAction::ReadMessage { commit })
    } else if before_publication(st.status.as_str()) {
        settle(
            st,
            t,
            "ABORTED",
            "RECOVERED_ABORTED_NO_REF_CHANGE",
            "recovered unfinished pre-publication transaction as aborted",
        )
    } else {
        settle(
            st,
            t,
            "ABORTED",
            "RECOVERED_ABORTED_UNKNOWN_STATE",
            "recovered unknown unfinished state as aborted",
        )
    }
}

/// The step where the last event of a transaction is known. One that a transaction stays in
/// is shown as it is.
#[verifier::opaque]
pub open spec fn latest_stepped(st: InspectStateModel, event: InspectEventModel) -> InspectStep {
    match event {
        InspectEventModel::Missing => fails(
            st,
            failure(ErrorCode::InvalidInput, "transaction not found: "@ + st.id),
        ),
        InspectEventModel::Latest { status, transaction } => {
            let told = InspectStateModel { status, ..st };
            if is_terminal(status) {
                asks(
                    InspectStateModel { transaction: Some(transaction), ..told },
                    InspectPhase::Events,
                    InspectActionModel::ReadEvents,
                )
            } else {
                match transaction.target_ref {
                    None => unfinished(told, transaction),
                    Some(reference) => asks(
                        InspectStateModel { transaction: Some(transaction), ..told },
                        InspectPhase::Target,
                        InspectActionModel::ReadTarget { reference },
                    ),
                }
            }
        },
        _ => stops(st, event),
    }
}

fn step_latest(st: InspectState, event: InspectEvent) -> (r: (
    InspectState,
    Result<InspectAction, ClewError>,
))
    ensures
        (r.0.deep_view(), outcome(r.1)) == latest_stepped(st.deep_view(), event.deep_view()),
{
    proof {
        reveal(latest_stepped);
    }
    match event {
        InspectEvent::Missing => {
            let message = joined("transaction not found: ", st.id.as_str());
            fail(st, ClewError::new(ErrorCode::InvalidInput, message.as_str()))
        },
        InspectEvent::Latest { status, transaction } => {
            let mut st = st;
            st.status = status;
            if terminal(st.status.as_str()) {
                st.transaction = Some(transaction);
                ask(st, InspectPhase::Events, InspectAction::ReadEvents)
            } else {
                let reference = match &transaction.target_ref {
                    Some(reference) => reference.clone(),
                    None => {
                        return leave_unfinished(st, transaction);
                    },
                };
                st.transaction = Some(transaction);
                ask(st, InspectPhase::Target, InspectAction::ReadTarget { reference })
            }
        },
        _ => stop(st, event),
    }
}

/// The evidence of an index that was brought up to date.
pub open spec fn recovery_evidence(
    snapshot: Seq<char>,
    invalidations: Seq<Seq<char>>,
) -> JsonModel {
    JsonModel::object()
        .with("kind"@, JsonModel::Str("INDEX_RECOVERY"@))
        .with("finalIndexSnapshot"@, JsonModel::Str(snapshot))
        .with("appliedInvalidations"@, <Vec<String> as Record>::json(invalidations))
}

/// The step for a transaction whose commit a history shows.
pub open spec fn recovered(st: InspectStateModel, t: TransactionModel) -> InspectStep {
    settles(
        st,
        TransactionModel { final_commit: Some(st.commit), ..t },
        "COMMITTED"@,
        "RECOVERED_COMMITTED_FROM_TRAILER"@,
        "recovered committed status from reachable Git trailer"@,
    )
}

fn recover(st: InspectState, t: Transaction) -> (r: (
    InspectState,
    Result<InspectAction, ClewError>,
))
    ensures
        (r.0.deep_view(), outcome(r.1)) == recovered(st.deep_view(), t.deep_view()),
{
    let mut t = t;
    t.final_commit = Some(st.commit.clone());
    settle(
        st,
        t,
        "COMMITTED",
        "RECOVERED_COMMITTED_FROM_TRAILER",
        "recovered committed status from reachable Git trailer",
    )
}

/// The steps where the history of the target is looked through, and the index is brought
/// up to the target where the transaction is in it.
#[verifier::opaque]
pub open spec fn history_stepped(
    st: InspectStateModel,
    t: TransactionModel,
    event: InspectEventModel,
) -> InspectStep {
    match (st.phase, event) {
        (InspectPhase::Target, InspectEventModel::Target(target)) => asks(
            InspectStateModel { target, ..st },
            InspectPhase::History,
            InspectActionModel::ScanHistory { revision: target },
        ),
        (InspectPhase::History, InspectEventModel::History(history)) => match transaction_commit(
            history,
            st.id,
        ) {
            None => unfinished(st, t),
            Some(commit) => asks(
                InspectStateModel { commit, ..st },
                InspectPhase::Revision,
                InspectActionModel::ReadRevision { compilation: t.thread.snapshot.compilation },
            ),
        },
        (InspectPhase::Revision, InspectEventModel::Revision(revision)) => if revision == Some(
            st.target,
        ) {
            recovered(st, t)
        } else {
            asks(st, InspectPhase::RecoveryWorker, InspectActionModel::StartWorker)
        },
        (InspectPhase::RecoveryWorker, InspectEventModel::WorkerStarted) => asks(
            st,
            InspectPhase::RecoveryWorktree,
            InspectActionModel::AddWorktree { revision: st.target },
        ),
        (InspectPhase::RecoveryWorktree, InspectEventModel::WorktreeAdded) => asks(
            st,
            InspectPhase::RecoveryPrepare,
            InspectActionModel::Prepare { system: t.thread.snapshot.build_system },
        ),
        (InspectPhase::RecoveryWorktree, InspectEventModel::Failed(error)) => fails(
            st,
            recovery_needed(error),
        ),
        (InspectPhase::RecoveryPrepare, InspectEventModel::Prepared) => asks(
            st,
            InspectPhase::RecoveryStage,
            InspectActionModel::StageIndex {
                revision: st.target,
                compilation: t.thread.snapshot.compilation,
            },
        ),
        (InspectPhase::RecoveryPrepare, InspectEventModel::Failed(error)) => fails(
            st,
            recovery_needed(recovery_needed(error)),
        ),
        (InspectPhase::RecoveryStage, InspectEventModel::Staged) => asks(
            st,
            InspectPhase::RecoveryPublish,
            InspectActionModel::PublishIndex,
        ),
        (InspectPhase::RecoveryStage, InspectEventModel::Failed(error)) => fails(
            st,
            recovery_needed(recovery_needed(error)),
        ),
        (
            InspectPhase::RecoveryPublish,
            InspectEventModel::IndexPublished { snapshot, invalidations },
        ) => recovered(
            st,
            TransactionModel {
                validation_evidence: t.validation_evidence.push(
                    recovery_evidence(snapshot, invalidations),
                ),
                ..t
            },
        ),
        (InspectPhase::RecoveryPublish, InspectEventModel::Failed(error)) => fails(
            st,
            recovery_needed(error),
        ),
        _ => stops(st, event),
    }
}

fn step_history(st: InspectState, event: InspectEvent) -> (r: (
    InspectState,
    Result<InspectAction, ClewError>,
))
    requires
        st.transaction is Some,
    ensures
        (r.0.deep_view(), outcome(r.1)) == history_stepped(
            st.deep_view(),
            st.transaction->0.deep_view(),
            event.deep_view(),
        ),
{
    proof {
        reveal(history_stepped);
    }
    let t = match &st.transaction {
        Some(t) => t.copied(),
        None => {
            return stop(st, event);
        },
    };
    match (st.phase, event) {
        (InspectPhase::Target, InspectEvent::Target(target)) => {
            let mut st = st;
            st.target = target.clone();
            ask(st, InspectPhase::History, InspectAction::ScanHistory { revision: target })
        },
        (InspectPhase::History, InspectEvent::History(history)) => {
            match find_transaction_commit(history.as_str(), st.id.as_str()) {
                None => leave_unfinished(st, t),
                Some(commit) => {
                    let mut st = st;
                    st.commit = commit;
                    let compilation = t.thread.snapshot.compilation.clone();
                    ask(st, InspectPhase::Revision, InspectAction::ReadRevision { compilation })
                },
            }
        },
        (InspectPhase::Revision, InspectEvent::Revision(revision)) => {
            let same = match &revision {
                Some(text) => same_text(text.as_str(), st.target.as_str()),
                None => false,
            };
            if same {
                recover(st, t)
            } else {
                ask(st, InspectPhase::RecoveryWorker, InspectAction::StartWorker)
            }
        },
        (InspectPhase::RecoveryWorker, InspectEvent::WorkerStarted) => {
            let revision = st.target.clone();
            ask(st, InspectPhase::RecoveryWorktree, InspectAction::AddWorktree { revision })
        },
        (InspectPhase::RecoveryWorktree, InspectEvent::WorktreeAdded) => {
            let system = t.thread.snapshot.build_system;
            ask(st, InspectPhase::RecoveryPrepare, InspectAction::Prepare { system })
        },
        (InspectPhase::RecoveryWorktree, InspectEvent::Failed(error)) => fail(
            st,
            index_recovery_error(error),
        ),
        (InspectPhase::RecoveryPrepare, InspectEvent::Prepared) => {
            let revision = st.target.clone();
            let compilation = t.thread.snapshot.compilation.clone();
            ask(
                st,
                InspectPhase::RecoveryStage,
                InspectAction::StageIndex { revision, compilation },
            )
        },
        (InspectPhase::RecoveryPrepare, InspectEvent::Failed(error)) => fail(
            st,
            index_recovery_error(index_recovery_error(error)),
        ),
        (InspectPhase::RecoveryStage, InspectEvent::Staged) => ask(
            st,
            InspectPhase::RecoveryPublish,
            InspectAction::PublishIndex,
        ),
        (InspectPhase::RecoveryStage, InspectEvent::Failed(error)) => fail(
            st,
            index_recovery_error(index_recovery_error(error)),
        ),
        (InspectPhase::RecoveryPublish, InspectEvent::IndexPublished { snapshot, invalidations }) => {
            let mut t = t;
            let evidence = Json::object()
                .with("kind", Json::Str("INDEX_RECOVERY".to_owned()))
                .with("finalIndexSnapshot", Json::Str(snapshot))
                .with("appliedInvalidations", invalidations.to_json());
            let ghost before = t.validation_evidence.deep_view();
            t.validation_evidence.push(evidence);
            assert(t.validation_evidence.deep_view() =~= before.push(evidence.deep_view()));
            recover(st, t)
        },
        (InspectPhase::RecoveryPublish, InspectEvent::Failed(error)) => fail(
            st,
            index_recovery_error(error),
        ),
        (_, event) => stop(st, event),
    }
}

/// The target of a transaction that has one.
pub open spec fn target_of(t: TransactionModel) -> Seq<char> {
    match t.target_ref {
        Some(reference) => reference,
        None => Seq::empty(),
    }
}

fn find_target(t: &Transaction) -> (r: String)
    ensures
        r@ == target_of(t.deep_view()),
{
    match &t.target_ref {
        Some(reference) => reference.clone(),
        None => {
            let r = String::new();
            assert(r@ =~= Seq::empty());
            r
        },
    }
}

/// Whether a message is that of the candidate of a transaction.
pub open spec fn is_candidate_message(t: TransactionModel, message: Seq<char>) -> bool {
    has_line(message, id_trailer(t.tx_id)) && has_line(message, edit_trailer(edit_digest(t)))
}

fn candidate_message(t: &Transaction, message: &str) -> (r: bool)
    ensures
        r == is_candidate_message(t.deep_view(), message@),
{
    contains_line(message, joined("Semantic-Transaction-Id: ", t.tx_id.as_str()).as_str())
        && contains_line(message, joined("Semantic-Edit-Hash: ", digest_edit(t).as_str()).as_str())
}

/// The steps that recover a candidate: it has to be the one of the transaction, on top of
/// what the target names, and is published as by a commit.
#[verifier::opaque]
pub open spec fn candidate_stepped(
    st: InspectStateModel,
    t: TransactionModel,
    event: InspectEventModel,
) -> InspectStep {
    match (st.phase, event) {
        (InspectPhase::Message, InspectEventModel::Message(message)) => if is_candidate_message(
            t,
            message,
        ) {
            asks(
                st,
                InspectPhase::Parent,
                InspectActionModel::ReadParent { commit: st.commit, reference: target_of(t) },
            )
        } else {
            gives_up(st, t, "candidate trailers do not match ledger transaction"@)
        },
        (InspectPhase::Message, InspectEventModel::Failed(_)) => gives_up(
            st,
            t,
            "candidate commit object is unavailable; no ref was changed"@,
        ),
        (InspectPhase::Parent, InspectEventModel::Parent { parent, current }) => if current
            != parent {
            settles(
                st,
                t,
                "CONFLICTED"@,
                "RECOVERED_CONFLICTED_REF_MOVED"@,
                between("target ref moved from candidate parent "@, parent, " to "@) + current
                    + " before recovery"@,
            )
        } else {
            asks(
                InspectStateModel { target: current, ..st },
                InspectPhase::CandidateWorker,
                InspectActionModel::StartWorker,
            )
        },
        (InspectPhase::CandidateWorker, InspectEventModel::WorkerStarted) => asks(
            st,
            InspectPhase::CandidateWorktree,
            InspectActionModel::AddWorktree { revision: st.commit },
        ),
        (InspectPhase::CandidateWorktree, InspectEventModel::WorktreeAdded) => asks(
            st,
            InspectPhase::CandidatePrepare,
            InspectActionModel::Prepare { system: t.thread.snapshot.build_system },
        ),
        (InspectPhase::CandidatePrepare, InspectEventModel::Prepared) => asks(
            st,
            InspectPhase::CandidateStage,
            InspectActionModel::StageIndex {
                revision: st.commit,
                compilation: t.thread.snapshot.compilation,
            },
        ),
        (InspectPhase::CandidatePrepare, InspectEventModel::Failed(error)) => fails(
            st,
            recovery_needed(error),
        ),
        (InspectPhase::CandidateStage, InspectEventModel::Staged) => asks(
            st,
            InspectPhase::CandidateReference,
            InspectActionModel::UpdateRef {
                reference: target_of(t),
                to: st.commit,
                from: st.target,
            },
        ),
        (InspectPhase::CandidateStage, InspectEventModel::Failed(error)) => fails(
            st,
            recovery_needed(error),
        ),
        (InspectPhase::CandidateReference, InspectEventModel::RefUpdated) => asks(
            st,
            InspectPhase::CandidatePublish,
            InspectActionModel::PublishIndex,
        ),
        (InspectPhase::CandidatePublish, InspectEventModel::IndexPublished { .. }) => settles(
            st,
            TransactionModel { final_commit: Some(st.commit), ..t },
            "COMMITTED"@,
            "RECOVERED_COMMITTED_CANDIDATE_CAS"@,
            "recovered candidate commit with compare-and-swap"@,
        ),
        (InspectPhase::CandidatePublish, InspectEventModel::Failed(error)) => asks(
            InspectStateModel { failure: Some(error), ..st },
            InspectPhase::Rollback,
            InspectActionModel::UpdateRef {
                reference: target_of(t),
                to: st.target,
                from: st.commit,
            },
        ),
        _ => stops(st, event),
    }
}

fn step_candidate(st: InspectState, event: InspectEvent) -> (r: (
    InspectState,
    Result<InspectAction, ClewError>,
))
    requires
        st.transaction is Some,
    ensures
        (r.0.deep_view(), outcome(r.1)) == candidate_stepped(
            st.deep_view(),
            st.transaction->0.deep_view(),
            event.deep_view(),
        ),
{
    proof {
        reveal(candidate_stepped);
    }
    let t = match &st.transaction {
        Some(t) => t.copied(),
        None => {
            return stop(st, event);
        },
    };
    match (st.phase, event) {
        (InspectPhase::Message, InspectEvent::Message(message)) => {
            if candidate_message(&t, message.as_str()) {
                let commit = st.commit.clone();
                let reference = find_target(&t);
                ask(st, InspectPhase::Parent, InspectAction::ReadParent { commit, reference })
            } else {
                give_up(st, t, "candidate trailers do not match ledger transaction")
            }
        },
        (InspectPhase::Message, InspectEvent::Failed(_)) => give_up(
            st,
            t,
            "candidate commit object is unavailable; no ref was changed",
        ),
        (InspectPhase::Parent, InspectEvent::Parent { parent, current }) => {
            if !same_text(current.as_str(), parent.as_str()) {
                let reason = joined(
                    joined(
                        framed(
                            "target ref moved from candidate parent ",
                            parent.as_str(),
                            " to ",
                        ).as_str(),
                        current.as_str(),
                    ).as_str(),
                    " before recovery",
                );
                settle(
                    st,
                    t,
                    "CONFLICTED",
                    "RECOVERED_CONFLICTED_REF_MOVED",
                    reason.as_str(),
                )
            } else {
                let mut st = st;
                st.target = current;
                ask(st, InspectPhase::CandidateWorker, InspectAction::StartWorker)
            }
        },
        (InspectPhase::CandidateWorker, InspectEvent::WorkerStarted) => {
            let revision = st.commit.clone();
            ask(st, InspectPhase::CandidateWorktree, InspectAction::AddWorktree { revision })
        },
        (InspectPhase::CandidateWorktree, InspectEvent::WorktreeAdded) => {
            let system = t.thread.snapshot.build_system;
            ask(st, InspectPhase::CandidatePrepare, InspectAction::Prepare { system })
        },
        (InspectPhase::CandidatePrepare, InspectEvent::Prepared) => {
            let revision = st.commit.clone();
            let compilation = t.thread.snapshot.compilation.clone();
            ask(
                st,
                InspectPhase::CandidateStage,
                InspectAction::StageIndex { revision, compilation },
            )
        },
        (InspectPhase::CandidatePrepare, InspectEvent::Failed(error)) => fail(
            st,
            index_recovery_error(error),
        ),
        (InspectPhase::CandidateStage, InspectEvent::Staged) => {
            let reference = find_target(&t);
            let to = st.commit.clone();
            let from = st.target.clone();
            ask(
                st,
                InspectPhase::CandidateReference,
                InspectAction::UpdateRef { reference, to, from },
            )
        },
        (InspectPhase::CandidateStage, InspectEvent::Failed(error)) => fail(
            st,
            index_recovery_error(error),
        ),
        (InspectPhase::CandidateReference, InspectEvent::RefUpdated) => ask(
            st,
            InspectPhase::CandidatePublish,
            InspectAction::PublishIndex,
        ),
        (InspectPhase::CandidatePublish, InspectEvent::IndexPublished { .. }) => {
            let mut t = t;
            t.final_commit = Some(st.commit.clone());
            settle(
                st,
                t,
                "COMMITTED",
                "RECOVERED_COMMITTED_CANDIDATE_CAS",
                "recovered candidate commit with compare-and-swap",
            )
        },
        (InspectPhase::CandidatePublish, InspectEvent::Failed(error)) => {
            let mut st = st;
            st.failure = Some(error);
            let reference = find_target(&t);
            let to = st.target.clone();
            let from = st.commit.clone();
            ask(st, InspectPhase::Rollback, InspectAction::UpdateRef { reference, to, from })
        },
        (_, event) => stop(st, event),
    }
}

/// The step where the target went back, or could not. Either way the transaction needs
/// another inspection.
#[verifier::opaque]
pub open spec fn rollback_stepped(st: InspectStateModel, event: InspectEventModel) -> InspectStep {
    let told = InspectStateModel { failure: None, ..st };
    match (st.failure, event) {
        (Some(error), InspectEventModel::RefUpdated) => fails(
            told,
            recovery_needed(
                failure(
                    ErrorCode::TransactionRecoveryRequired,
                    "candidate index publication failed; target ref was rolled back: "@
                        + error.message,
                ),
            ),
        ),
        (Some(error), InspectEventModel::Failed(_)) => fails(
            told,
            recovery_needed(
                failure(
                    ErrorCode::TransactionRecoveryRequired,
                    "candidate index publication failed and target ref rollback failed: "@
                        + error.message,
                ),
            ),
        ),
        _ => stops(told, event),
    }
}

fn step_rollback(st: InspectState, event: InspectEvent) -> (r: (
    InspectState,
    Result<InspectAction, ClewError>,
))
    ensures
        (r.0.deep_view(), outcome(r.1)) == rollback_stepped(st.deep_view(), event.deep_view()),
{
    proof {
        reveal(rollback_stepped);
    }
    let mut st = st;
    let failure = st.failure.take();
    match (failure, event) {
        (Some(error), InspectEvent::RefUpdated) => {
            let message = joined(
                "candidate index publication failed; target ref was rolled back: ",
                error.message.as_str(),
            );
            let error = ClewError::new(ErrorCode::TransactionRecoveryRequired, message.as_str());
            fail(st, index_recovery_error(error))
        },
        (Some(error), InspectEvent::Failed(_)) => {
            let message = joined(
                "candidate index publication failed and target ref rollback failed: ",
                error.message.as_str(),
            );
            let error = ClewError::new(ErrorCode::TransactionRecoveryRequired, message.as_str());
            fail(st, index_recovery_error(error))
        },
        (_, event) => stop(st, event),
    }
}

/// What an inspection shows.
pub open spec fn inspection_report(st: InspectStateModel, events: Seq<LedgerEventModel>) -> JsonModel {
    JsonModel::object()
        .with("schema"@, JsonModel::Str("semantic-ledger/0.1"@))
        .with("transactionId"@, JsonModel::Str(st.id))
        .with("events"@, <Vec<LedgerEvent> as Record>::json(events))
        .with("reconciledStatus"@, JsonModel::Str(st.status))
        .with("recoveryAction"@, JsonModel::Str(st.action))
        .with("recoverable"@, JsonModel::Bool(true))
}

fn report_inspection(st: &InspectState, events: &Vec<LedgerEvent>) -> (r: Json)
    ensures
        r.deep_view() == inspection_report(st.deep_view(), events.deep_view()),
{
    Json::object()
        .with("schema", Json::Str("semantic-ledger/0.1".to_owned()))
        .with("transactionId", Json::Str(st.id.clone()))
        .with("events", events.to_json())
        .with("reconciledStatus", Json::Str(st.status.clone()))
        .with("recoveryAction", Json::Str(st.action.clone()))
        .with("recoverable", Json::Bool(true))
}

/// Whether a phase is one in which the history of the target is looked through.
pub open spec fn looks_through_history(phase: InspectPhase) -> bool {
    phase == InspectPhase::Target || phase == InspectPhase::History || phase
        == InspectPhase::Revision || phase == InspectPhase::RecoveryWorker || phase
        == InspectPhase::RecoveryWorktree || phase == InspectPhase::RecoveryPrepare || phase
        == InspectPhase::RecoveryStage || phase == InspectPhase::RecoveryPublish
}

/// A step of an inspection.
pub open spec fn inspect_stepped(st: InspectStateModel, event: InspectEventModel) -> InspectStep {
    match (st.phase, event) {
        (InspectPhase::Latest, event) => latest_stepped(st, event),
        (InspectPhase::Rollback, event) => rollback_stepped(st, event),
        (InspectPhase::Record, InspectEventModel::Recorded) => asks(
            st,
            InspectPhase::Events,
            InspectActionModel::ReadEvents,
        ),
        (InspectPhase::Events, InspectEventModel::Events(events)) => asks(
            st,
            InspectPhase::Done,
            InspectActionModel::Finish(inspection_report(st, events)),
        ),
        (InspectPhase::Record, event) => stops(st, event),
        (InspectPhase::Events, event) => stops(st, event),
        (InspectPhase::Done, event) => stops(st, event),
        (phase, event) => match st.transaction {
            None => stops(st, event),
            Some(t) => if looks_through_history(phase) {
                history_stepped(st, t, event)
            } else {
                candidate_stepped(st, t, event)
            },
        },
    }
}

/// Takes an inspection one step on. It starts with [`InspectState::start`] and the event
/// that gives the last record of the transaction; what it asks for is told to it in the
/// next event, until it ends with a report or an error. A transaction that was left
/// unfinished is settled first: committed where its commit is the target's, published
/// where its candidate still can be, and aborted or conflicted where not.
pub fn inspect(st: InspectState, event: InspectEvent) -> (r: (
    InspectState,
    Result<InspectAction, ClewError>,
))
    ensures
        (r.0.deep_view(), outcome(r.1)) == inspect_stepped(st.deep_view(), event.deep_view()),
{
    match (st.phase, event) {
        (InspectPhase::Latest, event) => step_latest(st, event),
        (InspectPhase::Rollback, event) => step_rollback(st, event),
        (InspectPhase::Record, InspectEvent::Recorded) => ask(
            st,
            InspectPhase::Events,
            InspectAction::ReadEvents,
        ),
        (InspectPhase::Events, InspectEvent::Events(events)) => {
            let report = report_inspection(&st, &events);
            ask(st, InspectPhase::Done, InspectAction::Finish(report))
        },
        (InspectPhase::Record, event) => stop(st, event),
        (InspectPhase::Events, event) => stop(st, event),
        (InspectPhase::Done, event) => stop(st, event),
        (phase, event) => {
            if st.transaction.is_none() {
                return stop(st, event);
            }
            let history = phase == InspectPhase::Target || phase == InspectPhase::History || phase
                == InspectPhase::Revision || phase == InspectPhase::RecoveryWorker || phase
                == InspectPhase::RecoveryWorktree || phase == InspectPhase::RecoveryPrepare
                || phase == InspectPhase::RecoveryStage || phase == InspectPhase::RecoveryPublish;
            if history {
                step_history(st, event)
            } else {
                step_candidate(st, event)
            }
        },
    }
}

/// Whether an inspection that records or shows a transaction has settled it.
pub open spec fn is_settled(st: InspectStateModel) -> bool {
    st.phase == InspectPhase::Record || st.phase == InspectPhase::Events ==> is_terminal(st.status)
}

/// An inspection shows a transaction in a status that it stays in only: it starts settled,
/// and no step unsettles it.
pub proof fn inspections_settle(st: InspectStateModel, event: InspectEventModel)
    requires
        is_settled(st),
    ensures
        is_settled(inspection_started(st.id)),
        is_settled(inspect_stepped(st, event).0),
{
    reveal(latest_stepped);
    reveal(rollback_stepped);
    reveal(history_stepped);
    reveal(candidate_stepped);
}

/// A transaction in a status that it stays in is shown as it is: nothing is asked for but
/// its events, and no action is reported.
pub proof fn settled_transactions_are_kept(
    id: Seq<char>,
    status: Seq<char>,
    transaction: TransactionModel,
    events: Seq<LedgerEventModel>,
)
    requires
        is_terminal(status),
    ensures
        ({
            let (read, action) = inspect_stepped(
                inspection_started(id),
                (InspectEventModel::Latest { status, transaction }),
            );
            &&& action == Ok::<InspectActionModel, ErrorModel>(InspectActionModel::ReadEvents)
            &&& read.transaction == Some(transaction)
            &&& read.status == status
            &&& read.action == "NONE"@
            &&& inspect_stepped(read, InspectEventModel::Events(events)).1 == Ok::<
                InspectActionModel,
                ErrorModel,
            >(InspectActionModel::Finish(inspection_report(read, events)))
        }),
{
    reveal(latest_stepped);
}

/// An inspection commits a transaction only where its commit is in the history of the
/// target, or where its own candidate was published; and it aborts or conflicts without
/// having moved the target.
pub proof fn recovery_commits_what_is_published(st: InspectStateModel, event: InspectEventModel)
    requires
        st.phase != InspectPhase::Record,
        st.phase != InspectPhase::Events,
    ensures
        ({
            let next = inspect_stepped(st, event).0;
            next.phase == InspectPhase::Record ==> match next.transaction {
                None => false,
                Some(t) => t.status == next.status && if next.status == "COMMITTED"@ {
                    &&& t.final_commit == Some(st.commit)
                    &&& st.phase == InspectPhase::Revision || event is IndexPublished
                } else {
                    st.phase == InspectPhase::Latest || st.phase == InspectPhase::History
                        || st.phase == InspectPhase::Message || st.phase == InspectPhase::Parent
                },
            }
        }),
{
    reveal(latest_stepped);
    reveal(rollback_stepped);
    reveal(history_stepped);
    reveal(candidate_stepped);
    reveal_strlit("COMMITTED");
    reveal_strlit("ABORTED");
    reveal_strlit("CONFLICTED");
    assert("COMMITTED"@.len() == 9);
    assert("ABORTED"@.len() == 7);
    assert("CONFLICTED"@.len() == 10);
}

/// The target is moved to a candidate only where it still names what the candidate stands
/// on.
pub proof fn recovery_moves_unmoved_targets(st: InspectStateModel, event: InspectEventModel)
    ensures
        ({
            let next = inspect_stepped(st, event).0;
            &&& next.phase == InspectPhase::CandidateWorker ==> match event {
                InspectEventModel::Parent { parent, current } => parent == current && next.target
                    == parent,
                _ => false,
            }
            &&& next.phase == InspectPhase::CandidateReference ==> next.target == st.target
                && inspect_stepped(st, event).1 == Ok::<InspectActionModel, ErrorModel>(
                InspectActionModel::UpdateRef {
                    reference: target_of(st.transaction->0),
                    to: st.commit,
                    from: st.target,
                },
            )
        }),
{
    reveal(latest_stepped);
    reveal(rollback_stepped);
    reveal(history_stepped);
    reveal(candidate_stepped);
}

/// An inspection as far as it has gone: its state, what it asked for last, and the entries
/// that it has added to the ledger.
pub struct Inspection {
    pub state: InspectStateModel,
    pub action: Option<Result<InspectActionModel, ErrorModel>>,
    pub entries: Seq<LedgerEntryModel>,
}

/// The entry that an event confirms, where the inspection asked for one.
pub open spec fn entry_confirmed(run: Inspection, event: InspectEventModel) -> Seq<LedgerEntryModel> {
    match (run.action, event, run.state.transaction) {
        (
            Some(Ok(InspectActionModel::Record { evidence })),
            InspectEventModel::Recorded,
            Some(t),
        ) => seq![entry_of(t, evidence)],
        _ => Seq::empty(),
    }
}

/// The inspection of a transaction after it was told some events.
pub open spec fn inspected(id: Seq<char>, events: Seq<InspectEventModel>) -> Inspection
    decreases events.len(),
{
    if events.len() == 0 {
        Inspection { state: inspection_started(id), action: None, entries: Seq::empty() }
    } else {
        let run = inspected(id, events.drop_last());
        let (state, action) = inspect_stepped(run.state, events.last());
        Inspection {
            state,
            action: Some(action),
            entries: run.entries + entry_confirmed(run, events.last()),
        }
    }
}

/// Whether a status is one in which an inspection leaves what it found unfinished.
pub open spec fn is_reconciled(status: Seq<char>) -> bool {
    status == "COMMITTED"@ || status == "CONFLICTED"@ || status == "ABORTED"@
}

/// What an inspection has done where it is about to show a transaction that was found in a
/// status: nothing where the transaction stays in it, and else one entry.
pub open spec fn is_reconciliation(
    run: Inspection,
    status: Seq<char>,
    transaction: TransactionModel,
) -> bool {
    if is_terminal(status) {
        run.entries.len() == 0 && run.state.status == status && run.state.action == "NONE"@
    } else {
        run.entries.len() == 1 && run.entries[0].status == run.state.status
            && run.entries[0].tx_id == transaction.tx_id && is_reconciled(run.state.status)
    }
}

/// What holds of an inspection wherever it has come to.
pub open spec fn goes_on(run: Inspection, first: InspectEventModel) -> bool {
    match first {
        InspectEventModel::Latest { status, transaction } => match run.state.phase {
            InspectPhase::Latest => false,
            InspectPhase::Events => is_reconciliation(run, status, transaction) && run.action
                == Some(Ok::<InspectActionModel, ErrorModel>(InspectActionModel::ReadEvents)),
            InspectPhase::Done => match run.action {
                Some(Ok(action)) => is_reconciliation(run, status, transaction) && exists|
                    events: Seq<LedgerEventModel>,
                |
                    action == InspectActionModel::Finish(
                        #[trigger] inspection_report(run.state, events),
                    ),
                _ => true,
            },
            InspectPhase::Record => {
                &&& !is_terminal(status)
                &&& run.entries.len() == 0
                &&& run.action matches Some(Ok(InspectActionModel::Record { .. }))
                &&& run.state.transaction matches Some(t)
                &&& t.tx_id == transaction.tx_id
                &&& t.status == run.state.status
                &&& is_reconciled(run.state.status)
            },
            _ => {
                &&& !is_terminal(status)
                &&& run.entries.len() == 0
                &&& !(run.action matches Some(Ok(InspectActionModel::Record { .. })))
                &&& run.state.transaction matches Some(t)
                &&& t.tx_id == transaction.tx_id
            },
        },
        _ => run.state.phase == InspectPhase::Done && !(run.action matches Some(Ok(_))),
    }
}

/// Whether a step leads on with a transaction: to a record of it in a status that it is
/// left in, to something else that is asked for, or to an error.
pub open spec fn leads_on(step: InspectStep, tx_id: Seq<char>) -> bool {
    match step.1 {
        Err(_) => step.0.phase == InspectPhase::Done,
        Ok(action) => {
            &&& step.0.transaction matches Some(t)
            &&& t.tx_id == tx_id
            &&& if step.0.phase == InspectPhase::Record {
                action is Record && t.status == step.0.status && is_reconciled(step.0.status)
            } else {
                !(action is Record) && step.0.phase != InspectPhase::Latest && step.0.phase
                    != InspectPhase::Events && step.0.phase != InspectPhase::Done
            }
        },
    }
}

proof fn history_leads_on(st: InspectStateModel, t: TransactionModel, event: InspectEventModel)
    requires
        st.transaction == Some(t),
    ensures
        leads_on(history_stepped(st, t, event), t.tx_id),
{
    reveal(history_stepped);
}

proof fn candidate_leads_on(st: InspectStateModel, t: TransactionModel, event: InspectEventModel)
    requires
        st.transaction == Some(t),
    ensures
        leads_on(candidate_stepped(st, t, event), t.tx_id),
{
    reveal(candidate_stepped);
}

proof fn first_step_goes_on(id: Seq<char>, events: Seq<InspectEventModel>)
    requires
        events.len() == 1,
    ensures
        goes_on(inspected(id, events), events[0]),
{
    reveal_with_fuel(inspected, 3);
    reveal(latest_stepped);
    assert(events.drop_last().len() == 0);
}

/// An inspection that was told one more event.
pub open spec fn told_more(run: Inspection, event: InspectEventModel) -> Inspection {
    Inspection {
        state: inspect_stepped(run.state, event).0,
        action: Some(inspect_stepped(run.state, event).1),
        entries: run.entries + entry_confirmed(run, event),
    }
}

proof fn step_goes_on(run: Inspection, first: InspectEventModel, event: InspectEventModel)
    requires
        goes_on(run, first),
    ensures
        goes_on(told_more(run, event), first),
{
    let next = told_more(run, event);
    match run.state.phase {
        InspectPhase::Record => {
            if event is Recorded {
                let t = run.state.transaction->0;
                assert(next.entries.len() == 1);
                assert(next.entries[0].status == t.status);
            }
        },
        InspectPhase::Events => {
            assert(next.entries =~= run.entries);
            if let InspectEventModel::Events(events) = event {
                assert(inspection_report(next.state, events) == inspection_report(
                    run.state,
                    events,
                ));
            }
        },
        InspectPhase::Done => {},
        InspectPhase::Latest => {},
        InspectPhase::Rollback => {
            reveal(rollback_stepped);
        },
        _ => {
            if let Some(t) = run.state.transaction {
                history_leads_on(run.state, t, event);
                candidate_leads_on(run.state, t, event);
            }
            assert(next.entries =~= run.entries);
        },
    }
}

proof fn inspection_goes_on(id: Seq<char>, events: Seq<InspectEventModel>)
    requires
        events.len() > 0,
    ensures
        goes_on(inspected(id, events), events[0]),
    decreases events.len(),
{
    if events.len() == 1 {
        first_step_goes_on(id, events);
    } else {
        let before = events.drop_last();
        inspection_goes_on(id, before);
        step_goes_on(inspected(id, before), events[0], events.last());
    }
}

proof fn report_says_its_status(st: InspectStateModel, events: Seq<LedgerEventModel>)
    ensures
        inspection_report(st, events).get("reconciledStatus"@) == Some(JsonModel::Str(st.status)),
        inspection_report(st, events).get("recoveryAction"@) == Some(JsonModel::Str(st.action)),
{
    reveal_strlit("reconciledStatus");
    reveal_strlit("recoveryAction");
    reveal_strlit("recoverable");
    let s = "reconciledStatus"@;
    let a = "recoveryAction"@;
    assert(s.len() == 16 && a.len() == 14 && "recoverable"@.len() == 11);
    let first = JsonModel::object()
        .with("schema"@, JsonModel::Str("semantic-ledger/0.1"@))
        .with("transactionId"@, JsonModel::Str(st.id))
        .with("events"@, <Vec<LedgerEvent> as Record>::json(events));
    assert(first is Obj);
    let second = first.with(s, JsonModel::Str(st.status));
    member_of_with(first, s, JsonModel::Str(st.status), s);
    let third = second.with(a, JsonModel::Str(st.action));
    member_of_with(second, a, JsonModel::Str(st.action), s);
    member_of_with(second, a, JsonModel::Str(st.action), a);
    member_of_with(third, "recoverable"@, JsonModel::Bool(true), s);
    member_of_with(third, "recoverable"@, JsonModel::Bool(true), a);
}

/// A whole inspection that ends with a report was told the last event of a transaction. It
/// adds nothing to the ledger where the transaction stays in the status of that event, which
/// is reported with no action. Else it adds exactly one entry of the transaction, committed,
/// conflicted or aborted, and reports that status. An unknown transaction is refused.
pub proof fn inspections_add_one_entry_or_none(
    id: Seq<char>,
    events: Seq<InspectEventModel>,
    report: JsonModel,
)
    requires
        inspected(id, events).action == Some(
            Ok::<InspectActionModel, ErrorModel>(InspectActionModel::Finish(report)),
        ),
    ensures
        events.len() > 0,
        ({
            let run = inspected(id, events);
            match events[0] {
                InspectEventModel::Latest { status, transaction } => {
                    &&& report.get("reconciledStatus"@) == Some(JsonModel::Str(run.state.status))
                    &&& if is_terminal(status) {
                        &&& run.entries.len() == 0
                        &&& run.state.status == status
                        &&& report.get("recoveryAction"@) == Some(JsonModel::Str("NONE"@))
                    } else {
                        &&& run.entries.len() == 1
                        &&& run.entries[0].tx_id == transaction.tx_id
                        &&& run.entries[0].status == run.state.status
                        &&& is_reconciled(run.state.status)
                    }
                },
                _ => false,
            }
        }),
        inspected(id, seq![InspectEventModel::Missing]).action == Some(
            Err::<InspectActionModel, ErrorModel>(
                failure(ErrorCode::InvalidInput, "transaction not found: "@ + id),
            ),
        ),
{
    assert(inspected(id, seq![InspectEventModel::Missing]).action == Some(
        Err::<InspectActionModel, ErrorModel>(
            failure(ErrorCode::InvalidInput, "transaction not found: "@ + id),
        ),
    )) by {
        reveal_with_fuel(inspected, 3);
        reveal(latest_stepped);
        assert(seq![InspectEventModel::Missing].drop_last().len() == 0);
    }
    inspection_goes_on(id, events);
    let run = inspected(id, events);
    inspection_finishes_done(id, events, report);
    let shown = choose|shown: Seq<LedgerEventModel>|
        InspectActionModel::Finish(report) == InspectActionModel::Finish(
            #[trigger] inspection_report(run.state, shown),
        );
    report_says_its_status(run.state, shown);
}

proof fn inspection_finishes_done(
    id: Seq<char>,
    events: Seq<InspectEventModel>,
    report: JsonModel,
)
    requires
        events.len() > 0,
        inspected(id, events).action == Some(
            Ok::<InspectActionModel, ErrorModel>(InspectActionModel::Finish(report)),
        ),
    ensures
        inspected(id, events).state.phase == InspectPhase::Done,
{
    reveal(latest_stepped);
    reveal(rollback_stepped);
    reveal(history_stepped);
    reveal(candidate_stepped);
}

/// A second inspection, after one that ended with a report, reports the same status with no
/// action, and adds nothing.
pub proof fn second_inspections_change_nothing(
    id: Seq<char>,
    events: Seq<InspectEventModel>,
    report: JsonModel,
    transaction: TransactionModel,
    shown: Seq<LedgerEventModel>,
)
    requires
        inspected(id, events).action == Some(
            Ok::<InspectActionModel, ErrorModel>(InspectActionModel::Finish(report)),
        ),
    ensures
        ({
            let status = inspected(id, events).state.status;
            let again = inspected(
                id,
                seq![
                    InspectEventModel::Latest { status, transaction },
                    InspectEventModel::Events(shown),
                ],
            );
            &&& is_terminal(status)
            &&& again.entries.len() == 0
            &&& again.state.status == status
            &&& again.action matches Some(Ok(InspectActionModel::Finish(second)))
            &&& second.get("reconciledStatus"@) == report.get("reconciledStatus"@)
            &&& second.get("recoveryAction"@) == Some(JsonModel::Str("NONE"@))
        }),
{
    inspections_add_one_entry_or_none(id, events, report);
    settled_inspection_adds_nothing(
        id,
        inspected(id, events).state.status,
        transaction,
        shown,
    );
}

proof fn settled_inspection_adds_nothing(
    id: Seq<char>,
    status: Seq<char>,
    transaction: TransactionModel,
    shown: Seq<LedgerEventModel>,
)
    requires
        is_terminal(status),
    ensures
        ({
            let again = inspected(
                id,
                seq![
                    InspectEventModel::Latest { status, transaction },
                    InspectEventModel::Events(shown),
                ],
            );
            &&& again.entries.len() == 0
            &&& again.state.status == status
            &&& again.action matches Some(Ok(InspectActionModel::Finish(second)))
            &&& second.get("reconciledStatus"@) == Some(JsonModel::Str(status))
            &&& second.get("recoveryAction"@) == Some(JsonModel::Str("NONE"@))
        }),
{
    let latest = InspectEventModel::Latest { status, transaction };
    let one = seq![latest];
    let both = seq![latest, InspectEventModel::Events(shown)];
    assert(both.drop_last() =~= one);
    let none = one.drop_last();
    assert(none.len() == 0);
    let run = inspected(id, one);
    assert(run == told_more(inspected(id, none), latest));
    assert(inspected(id, both) == told_more(run, InspectEventModel::Events(shown)));
    settled_transactions_are_kept(id, status, transaction, shown);
    first_step_goes_on(id, one);
    assert(entry_confirmed(run, InspectEventModel::Events(shown)).len() == 0);
    report_says_its_status(run.state, shown);
}

} // verus!
