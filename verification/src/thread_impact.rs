//! Pure, bounded selection of the impact of a Kotlin callable.
//!
//! The module reads only a verified, retained set of callable facts. It reads no
//! source file, opens no store, starts no process and publishes nothing: it
//! predicts the evidence object, the closure that proves it, the private authority
//! and the compact projection that a caller may publish.

use vstd::prelude::*;
use vstd::string::*;

use crate::canonical::{hash, json_digest};
use crate::cas::{reference_to, CasObject, CasObjectModel};
use crate::closure::{close, closed, closure_is_canonical, ClosureMessages, ClosureTexts};
use crate::error::{
    accept, accepted, budget, corrupt, corrupted, exceeded, invalid, outcome, refused, ClewError,
    ErrorModel,
};
use crate::fair::{fair_order, fair_order_is_complete, first_of, lane_total, take_fairly};
use crate::identity::{
    callable_family, is_full_symbol, symbol_callable_family, validate_kotlin_full_symbol_identity,
};
use crate::json::{canonical_bytes, list, Json, JsonModel};
use crate::order;
use crate::order::{num_part, optional_num, optional_text, text_part, Ordered, Part, PartModel};
use crate::record::Record;
use crate::retained::{host_size, to_host_size};
use crate::table::{
    contains_key, enter, entered, find_record, first_table, has_key, is_table, record_at, table_of,
    Keyed,
};
use crate::text::{
    chars_of, copy_bytes, has_prefix, is_digest, is_nfc, is_plain, joined, nfc_of, pieces, plain,
    same_bytes, same_text, split, starts_with, text_of,
};
use crate::thread_callables::{
    BoundaryFact, BoundaryFactModel, CallableFact, CallableFactKind, CallableFactModel,
    CallableFactProvenance, CallableFactProvenanceModel, CallableFactSetCertainty, CallableLookup,
    CallableLookupModel, CallableMemberBinding, CallableMemberBindingModel, CallablePairBinding,
    CallablePairBindingModel, CallableQueryRequest, CallableQueryRequestModel, CallableQueryTrace,
    CallableQueryTraceModel, DeclarationFactModel, DeclarationKind, GraphCoverage,
    PreparedCallableFactSet, PreparedCallableFactSetModel, PreparedCasObject,
    PreparedCasObjectModel, RelationshipAuthority, SourceAnchor, SourceAnchorModel,
    TargetResolution,
};

verus! {

pub const THREAD_IMPACT_EVIDENCE_SCHEMA: &'static str = "codeclew-kotlin-thread-impact-evidence/1.0";

pub const THREAD_IMPACT_AUTHORITY_SCHEMA: &'static str = "codeclew-kotlin-thread-impact/1.0";

pub const THREAD_IMPACT_PROJECTION_SCHEMA: &'static str =
    "codeclew-kotlin-thread-impact-projection/1.0";

pub const MAX_IMPACT_FINDINGS: usize = 4_096;

pub const MAX_IMPACT_OBLIGATIONS: usize = 4_096;

pub const MAX_IMPACT_SOURCE_WINDOWS: usize = 32;

pub const MAX_IMPACT_SOURCE_WINDOW_BYTES: usize = 256 * 1024;

pub const MAX_IMPACT_DERIVED_CAS_OBJECTS: usize = 64;

pub const MAX_IMPACT_RETAINED_CLOSURE_BYTES: usize = 64 * 1024 * 1024;

pub const MAX_IMPACT_STDOUT_BYTES: usize = 64 * 1024;

/// What is left free of the bound on what is shown, for what is put around it.
pub const IMPACT_STDOUT_ENVELOPE_RESERVE: usize = 4 * 1024;

/// The bounds of an impact.
#[derive(Debug, PartialEq, Eq)]
pub struct ImpactBudgets {
    pub max_findings: usize,
    pub max_obligations: usize,
    pub max_source_windows: usize,
    pub max_source_window_bytes: usize,
    pub max_derived_cas_objects: usize,
    pub max_retained_closure_bytes: usize,
    pub max_stdout_bytes: usize,
}

/// The model of a [`ImpactBudgets`].
pub struct ImpactBudgetsModel {
    pub max_findings: usize,
    pub max_obligations: usize,
    pub max_source_windows: usize,
    pub max_source_window_bytes: usize,
    pub max_derived_cas_objects: usize,
    pub max_retained_closure_bytes: usize,
    pub max_stdout_bytes: usize,
}

impl DeepView for ImpactBudgets {
    type V = ImpactBudgetsModel;

    open spec fn deep_view(&self) -> ImpactBudgetsModel {
        ImpactBudgetsModel {
            max_findings: self.max_findings.deep_view(),
            max_obligations: self.max_obligations.deep_view(),
            max_source_windows: self.max_source_windows.deep_view(),
            max_source_window_bytes: self.max_source_window_bytes.deep_view(),
            max_derived_cas_objects: self.max_derived_cas_objects.deep_view(),
            max_retained_closure_bytes: self.max_retained_closure_bytes.deep_view(),
            max_stdout_bytes: self.max_stdout_bytes.deep_view(),
        }
    }
}

impl Record for ImpactBudgets {
    open spec fn json(v: ImpactBudgetsModel) -> JsonModel {
        JsonModel::object()
            .with("maxFindings"@, <usize as Record>::json(v.max_findings))
            .with("maxObligations"@, <usize as Record>::json(v.max_obligations))
            .with("maxSourceWindows"@, <usize as Record>::json(v.max_source_windows))
            .with("maxSourceWindowBytes"@, <usize as Record>::json(v.max_source_window_bytes))
            .with("maxDerivedCasObjects"@, <usize as Record>::json(v.max_derived_cas_objects))
            .with("maxRetainedClosureBytes"@, <usize as Record>::json(v.max_retained_closure_bytes))
            .with("maxStdoutBytes"@, <usize as Record>::json(v.max_stdout_bytes))
    }

    fn copied(&self) -> (r: ImpactBudgets) {
        ImpactBudgets {
            max_findings: self.max_findings.copied(),
            max_obligations: self.max_obligations.copied(),
            max_source_windows: self.max_source_windows.copied(),
            max_source_window_bytes: self.max_source_window_bytes.copied(),
            max_derived_cas_objects: self.max_derived_cas_objects.copied(),
            max_retained_closure_bytes: self.max_retained_closure_bytes.copied(),
            max_stdout_bytes: self.max_stdout_bytes.copied(),
        }
    }

    fn same_as(&self, other: &ImpactBudgets) -> (r: bool) {
        self.max_findings.same_as(&other.max_findings)
            && self.max_obligations.same_as(&other.max_obligations)
            && self.max_source_windows.same_as(&other.max_source_windows)
            && self.max_source_window_bytes.same_as(&other.max_source_window_bytes)
            && self.max_derived_cas_objects.same_as(&other.max_derived_cas_objects)
            && self.max_retained_closure_bytes.same_as(&other.max_retained_closure_bytes)
            && self.max_stdout_bytes.same_as(&other.max_stdout_bytes)
    }

    fn to_json(&self) -> (r: Json) {
        Json::object()
            .with("maxFindings", self.max_findings.to_json())
            .with("maxObligations", self.max_obligations.to_json())
            .with("maxSourceWindows", self.max_source_windows.to_json())
            .with("maxSourceWindowBytes", self.max_source_window_bytes.to_json())
            .with("maxDerivedCasObjects", self.max_derived_cas_objects.to_json())
            .with("maxRetainedClosureBytes", self.max_retained_closure_bytes.to_json())
            .with("maxStdoutBytes", self.max_stdout_bytes.to_json())
    }
}

/// What an impact is asked about.
#[derive(Debug, PartialEq, Eq)]
pub enum KotlinImpactSubject {
    FullSymbol {
        symbol_identity: String,
        member_alias: Option<String>,
    },
    CallableFamily {
        callable_id: String,
    },
    Token {
        term: String,
    },
}

/// The model of a [`KotlinImpactSubject`].
pub enum KotlinImpactSubjectModel {
    FullSymbol {
        symbol_identity: Seq<char>,
        member_alias: Option<Seq<char>>,
    },
    CallableFamily {
        callable_id: Seq<char>,
    },
    Token {
        term: Seq<char>,
    },
}

impl DeepView for KotlinImpactSubject {
    type V = KotlinImpactSubjectModel;

    open spec fn deep_view(&self) -> KotlinImpactSubjectModel {
        match self {
            KotlinImpactSubject::FullSymbol { symbol_identity, member_alias } => KotlinImpactSubjectModel::FullSymbol {
                symbol_identity: symbol_identity.deep_view(),
                member_alias: member_alias.deep_view(),
            },
            KotlinImpactSubject::CallableFamily { callable_id } => KotlinImpactSubjectModel::CallableFamily {
                callable_id: callable_id.deep_view(),
            },
            KotlinImpactSubject::Token { term } => KotlinImpactSubjectModel::Token {
                term: term.deep_view(),
            },
        }
    }
}

impl Record for KotlinImpactSubject {
    open spec fn json(v: KotlinImpactSubjectModel) -> JsonModel {
        match v {
            KotlinImpactSubjectModel::FullSymbol { symbol_identity, member_alias } => JsonModel::object()
                .with("symbolIdentity"@, <String as Record>::json(symbol_identity))
                .with_some("memberAlias"@, match member_alias { Some(x) => Some(<String as Record>::json(x)), None => None })
                .with("kind"@, JsonModel::Str("FULL_SYMBOL"@)),
            KotlinImpactSubjectModel::CallableFamily { callable_id } => JsonModel::object()
                .with("callableId"@, <String as Record>::json(callable_id))
                .with("kind"@, JsonModel::Str("CALLABLE_FAMILY"@)),
            KotlinImpactSubjectModel::Token { term } => JsonModel::object()
                .with("term"@, <String as Record>::json(term))
                .with("kind"@, JsonModel::Str("TOKEN"@)),
        }
    }

    fn copied(&self) -> (r: KotlinImpactSubject) {
        match self {
            KotlinImpactSubject::FullSymbol { symbol_identity, member_alias } => KotlinImpactSubject::FullSymbol {
                symbol_identity: symbol_identity.copied(),
                member_alias: member_alias.copied(),
            },
            KotlinImpactSubject::CallableFamily { callable_id } => KotlinImpactSubject::CallableFamily {
                callable_id: callable_id.copied(),
            },
            KotlinImpactSubject::Token { term } => KotlinImpactSubject::Token {
                term: term.copied(),
            },
        }
    }

    fn same_as(&self, other: &KotlinImpactSubject) -> (r: bool) {
        match (self, other) {
            (KotlinImpactSubject::FullSymbol { symbol_identity: a0, member_alias: a1 }, KotlinImpactSubject::FullSymbol { symbol_identity: b0, member_alias: b1 }) => a0.same_as(b0) && a1.same_as(b1),
            (KotlinImpactSubject::CallableFamily { callable_id: a0 }, KotlinImpactSubject::CallableFamily { callable_id: b0 }) => a0.same_as(b0),
            (KotlinImpactSubject::Token { term: a0 }, KotlinImpactSubject::Token { term: b0 }) => a0.same_as(b0),
            _ => false,
        }
    }

    fn to_json(&self) -> (r: Json) {
        match self {
            KotlinImpactSubject::FullSymbol { symbol_identity, member_alias } => Json::object()
                .with("symbolIdentity", symbol_identity.to_json())
                .with_some("memberAlias", match member_alias { Some(x) => Some(x.to_json()), None => None })
                .with("kind", Json::Str("FULL_SYMBOL".to_owned())),
            KotlinImpactSubject::CallableFamily { callable_id } => Json::object()
                .with("callableId", callable_id.to_json())
                .with("kind", Json::Str("CALLABLE_FAMILY".to_owned())),
            KotlinImpactSubject::Token { term } => Json::object()
                .with("term", term.to_json())
                .with("kind", Json::Str("TOKEN".to_owned())),
        }
    }
}

/// The kind of a subject.
#[derive(Clone, Copy, Debug, PartialEq, Eq, Structural)]
pub enum ImpactSubjectKind {
    FullSymbol,
    CallableFamily,
    Token,
}

impl DeepView for ImpactSubjectKind {
    type V = ImpactSubjectKind;

    open spec fn deep_view(&self) -> ImpactSubjectKind {
        *self
    }
}

impl ImpactSubjectKind {
    /// The name that is written for a value.
    pub open spec fn name(self) -> Seq<char> {
        match self {
            ImpactSubjectKind::FullSymbol => "FULL_SYMBOL"@,
            ImpactSubjectKind::CallableFamily => "CALLABLE_FAMILY"@,
            ImpactSubjectKind::Token => "TOKEN"@,
        }
    }
}

impl Record for ImpactSubjectKind {
    open spec fn json(v: ImpactSubjectKind) -> JsonModel {
        JsonModel::Str(v.name())
    }

    fn copied(&self) -> (r: ImpactSubjectKind) {
        *self
    }

    fn same_as(&self, other: &ImpactSubjectKind) -> (r: bool) {
        *self == *other
    }

    fn to_json(&self) -> (r: Json) {
        let name = match self {
            ImpactSubjectKind::FullSymbol => "FULL_SYMBOL",
            ImpactSubjectKind::CallableFamily => "CALLABLE_FAMILY",
            ImpactSubjectKind::Token => "TOKEN",
        };
        Json::Str(name.to_owned())
    }
}

/// What an impact is asked for.
#[derive(Debug, PartialEq, Eq)]
pub struct ThreadImpactRequest {
    pub fact_set_authority_digest: String,
    pub pair_id: String,
    pub subject: KotlinImpactSubject,
    pub budgets: ImpactBudgets,
}

/// The model of a [`ThreadImpactRequest`].
pub struct ThreadImpactRequestModel {
    pub fact_set_authority_digest: Seq<char>,
    pub pair_id: Seq<char>,
    pub subject: KotlinImpactSubjectModel,
    pub budgets: ImpactBudgetsModel,
}

impl DeepView for ThreadImpactRequest {
    type V = ThreadImpactRequestModel;

    open spec fn deep_view(&self) -> ThreadImpactRequestModel {
        ThreadImpactRequestModel {
            fact_set_authority_digest: self.fact_set_authority_digest.deep_view(),
            pair_id: self.pair_id.deep_view(),
            subject: self.subject.deep_view(),
            budgets: self.budgets.deep_view(),
        }
    }
}

impl Record for ThreadImpactRequest {
    open spec fn json(v: ThreadImpactRequestModel) -> JsonModel {
        JsonModel::object()
            .with("factSetAuthorityDigest"@, <String as Record>::json(v.fact_set_authority_digest))
            .with("pairId"@, <String as Record>::json(v.pair_id))
            .with("subject"@, <KotlinImpactSubject as Record>::json(v.subject))
            .with("budgets"@, <ImpactBudgets as Record>::json(v.budgets))
    }

    fn copied(&self) -> (r: ThreadImpactRequest) {
        ThreadImpactRequest {
            fact_set_authority_digest: self.fact_set_authority_digest.copied(),
            pair_id: self.pair_id.copied(),
            subject: self.subject.copied(),
            budgets: self.budgets.copied(),
        }
    }

    fn same_as(&self, other: &ThreadImpactRequest) -> (r: bool) {
        self.fact_set_authority_digest.same_as(&other.fact_set_authority_digest)
            && self.pair_id.same_as(&other.pair_id)
            && self.subject.same_as(&other.subject)
            && self.budgets.same_as(&other.budgets)
    }

    fn to_json(&self) -> (r: Json) {
        Json::object()
            .with("factSetAuthorityDigest", self.fact_set_authority_digest.to_json())
            .with("pairId", self.pair_id.to_json())
            .with("subject", self.subject.to_json())
            .with("budgets", self.budgets.to_json())
    }
}

/// The side of a pair.
#[derive(Clone, Copy, Debug, PartialEq, Eq, Structural)]
pub enum ImpactSide {
    Provider,
    Consumer,
}

impl DeepView for ImpactSide {
    type V = ImpactSide;

    open spec fn deep_view(&self) -> ImpactSide {
        *self
    }
}

impl ImpactSide {
    /// The name that is written for a value.
    pub open spec fn name(self) -> Seq<char> {
        match self {
            ImpactSide::Provider => "PROVIDER"@,
            ImpactSide::Consumer => "CONSUMER"@,
        }
    }
}

impl Record for ImpactSide {
    open spec fn json(v: ImpactSide) -> JsonModel {
        JsonModel::Str(v.name())
    }

    fn copied(&self) -> (r: ImpactSide) {
        *self
    }

    fn same_as(&self, other: &ImpactSide) -> (r: bool) {
        *self == *other
    }

    fn to_json(&self) -> (r: Json) {
        let name = match self {
            ImpactSide::Provider => "PROVIDER",
            ImpactSide::Consumer => "CONSUMER",
        };
        Json::Str(name.to_owned())
    }
}

impl ImpactSide {
    /// The place of a value in the order of the values.
    pub open spec fn rank(self) -> u64 {
        match self {
            ImpactSide::Provider => 0,
            ImpactSide::Consumer => 1,
        }
    }

    pub(crate) fn to_rank(self) -> (r: u64)
        ensures
            r == self.rank(),
    {
        match self {
            ImpactSide::Provider => 0,
            ImpactSide::Consumer => 1,
        }
    }
}

/// How the two shapes of a subject compare.
#[derive(Clone, Copy, Debug, PartialEq, Eq, Structural)]
pub enum ImpactShapeStatus {
    ExactProjectedShapeEqual,
    ExactProjectedShapeDelta,
    Unsure,
    NotComparable,
}

impl DeepView for ImpactShapeStatus {
    type V = ImpactShapeStatus;

    open spec fn deep_view(&self) -> ImpactShapeStatus {
        *self
    }
}

impl ImpactShapeStatus {
    /// The name that is written for a value.
    pub open spec fn name(self) -> Seq<char> {
        match self {
            ImpactShapeStatus::ExactProjectedShapeEqual => "EXACT_PROJECTED_SHAPE_EQUAL"@,
            ImpactShapeStatus::ExactProjectedShapeDelta => "EXACT_PROJECTED_SHAPE_DELTA"@,
            ImpactShapeStatus::Unsure => "UNSURE"@,
            ImpactShapeStatus::NotComparable => "NOT_COMPARABLE"@,
        }
    }
}

impl Record for ImpactShapeStatus {
    open spec fn json(v: ImpactShapeStatus) -> JsonModel {
        JsonModel::Str(v.name())
    }

    fn copied(&self) -> (r: ImpactShapeStatus) {
        *self
    }

    fn same_as(&self, other: &ImpactShapeStatus) -> (r: bool) {
        *self == *other
    }

    fn to_json(&self) -> (r: Json) {
        let name = match self {
            ImpactShapeStatus::ExactProjectedShapeEqual => "EXACT_PROJECTED_SHAPE_EQUAL",
            ImpactShapeStatus::ExactProjectedShapeDelta => "EXACT_PROJECTED_SHAPE_DELTA",
            ImpactShapeStatus::Unsure => "UNSURE",
            ImpactShapeStatus::NotComparable => "NOT_COMPARABLE",
        };
        Json::Str(name.to_owned())
    }
}

/// How certain an impact is.
#[derive(Clone, Copy, Debug, PartialEq, Eq, Structural)]
pub enum ImpactCertainty {
    Verified,
    Unsure,
}

impl DeepView for ImpactCertainty {
    type V = ImpactCertainty;

    open spec fn deep_view(&self) -> ImpactCertainty {
        *self
    }
}

impl ImpactCertainty {
    /// The name that is written for a value.
    pub open spec fn name(self) -> Seq<char> {
        match self {
            ImpactCertainty::Verified => "VERIFIED"@,
            ImpactCertainty::Unsure => "UNSURE"@,
        }
    }
}

impl Record for ImpactCertainty {
    open spec fn json(v: ImpactCertainty) -> JsonModel {
        JsonModel::Str(v.name())
    }

    fn copied(&self) -> (r: ImpactCertainty) {
        *self
    }

    fn same_as(&self, other: &ImpactCertainty) -> (r: bool) {
        *self == *other
    }

    fn to_json(&self) -> (r: Json) {
        let name = match self {
            ImpactCertainty::Verified => "VERIFIED",
            ImpactCertainty::Unsure => "UNSURE",
        };
        Json::Str(name.to_owned())
    }
}

/// What a finding can be relied on for.
#[derive(Clone, Copy, Debug, PartialEq, Eq, Structural)]
pub enum ImpactFindingAuthority {
    ExactProjectedDeclaration,
    NavigationOnly,
    Unsure,
}

impl DeepView for ImpactFindingAuthority {
    type V = ImpactFindingAuthority;

    open spec fn deep_view(&self) -> ImpactFindingAuthority {
        *self
    }
}

impl ImpactFindingAuthority {
    /// The name that is written for a value.
    pub open spec fn name(self) -> Seq<char> {
        match self {
            ImpactFindingAuthority::ExactProjectedDeclaration => "EXACT_PROJECTED_DECLARATION"@,
            ImpactFindingAuthority::NavigationOnly => "NAVIGATION_ONLY"@,
            ImpactFindingAuthority::Unsure => "UNSURE"@,
        }
    }
}

impl Record for ImpactFindingAuthority {
    open spec fn json(v: ImpactFindingAuthority) -> JsonModel {
        JsonModel::Str(v.name())
    }

    fn copied(&self) -> (r: ImpactFindingAuthority) {
        *self
    }

    fn same_as(&self, other: &ImpactFindingAuthority) -> (r: bool) {
        *self == *other
    }

    fn to_json(&self) -> (r: Json) {
        let name = match self {
            ImpactFindingAuthority::ExactProjectedDeclaration => "EXACT_PROJECTED_DECLARATION",
            ImpactFindingAuthority::NavigationOnly => "NAVIGATION_ONLY",
            ImpactFindingAuthority::Unsure => "UNSURE",
        };
        Json::Str(name.to_owned())
    }
}

/// Where the fact of a finding is retained.
#[derive(Debug, PartialEq, Eq)]
pub struct ImpactFactPointer {
    pub fact_id: String,
    pub fact_shard_ref: CasObject,
    pub provenance: CallableFactProvenance,
    pub shape_digest: Option<String>,
}

/// The model of a [`ImpactFactPointer`].
pub struct ImpactFactPointerModel {
    pub fact_id: Seq<char>,
    pub fact_shard_ref: CasObjectModel,
    pub provenance: CallableFactProvenanceModel,
    pub shape_digest: Option<Seq<char>>,
}

impl DeepView for ImpactFactPointer {
    type V = ImpactFactPointerModel;

    open spec fn deep_view(&self) -> ImpactFactPointerModel {
        ImpactFactPointerModel {
            fact_id: self.fact_id.deep_view(),
            fact_shard_ref: self.fact_shard_ref.deep_view(),
            provenance: self.provenance.deep_view(),
            shape_digest: self.shape_digest.deep_view(),
        }
    }
}

impl Record for ImpactFactPointer {
    open spec fn json(v: ImpactFactPointerModel) -> JsonModel {
        JsonModel::object()
            .with("factId"@, <String as Record>::json(v.fact_id))
            .with("factShardRef"@, <CasObject as Record>::json(v.fact_shard_ref))
            .with("provenance"@, <CallableFactProvenance as Record>::json(v.provenance))
            .with_some("shapeDigest"@, match v.shape_digest { Some(x) => Some(<String as Record>::json(x)), None => None })
    }

    fn copied(&self) -> (r: ImpactFactPointer) {
        ImpactFactPointer {
            fact_id: self.fact_id.copied(),
            fact_shard_ref: self.fact_shard_ref.copied(),
            provenance: self.provenance.copied(),
            shape_digest: self.shape_digest.copied(),
        }
    }

    fn same_as(&self, other: &ImpactFactPointer) -> (r: bool) {
        self.fact_id.same_as(&other.fact_id)
            && self.fact_shard_ref.same_as(&other.fact_shard_ref)
            && self.provenance.same_as(&other.provenance)
            && self.shape_digest.same_as(&other.shape_digest)
    }

    fn to_json(&self) -> (r: Json) {
        Json::object()
            .with("factId", self.fact_id.to_json())
            .with("factShardRef", self.fact_shard_ref.to_json())
            .with("provenance", self.provenance.to_json())
            .with_some("shapeDigest", match &self.shape_digest { Some(x) => Some(x.to_json()), None => None })
    }
}

impl Keyed for ImpactFactPointer {
    open spec fn key(v: ImpactFactPointerModel) -> Seq<char> {
        v.fact_id
    }

    fn key_text(&self) -> (r: &String) {
        &self.fact_id
    }
}

/// What a finding says.
#[derive(Debug, PartialEq, Eq)]
pub enum ImpactFindingDetail {
    Declaration {
        declaration_kind: DeclarationKind,
        symbol_identity: String,
        compiler_callable_id: Option<String>,
        compiler_class_id: Option<String>,
        projected_shape: Json,
    },
    Use {
        relation_kind: String,
        source_owner: String,
        target_callable_id: String,
        target_symbol_identity: Option<String>,
        target_repository_namespace: Option<String>,
        target_resolution: TargetResolution,
    },
    Boundary {
        stage: String,
        code: String,
        subject: Option<String>,
        required_checks: Vec<String>,
    },
}

/// The model of a [`ImpactFindingDetail`].
pub enum ImpactFindingDetailModel {
    Declaration {
        declaration_kind: DeclarationKind,
        symbol_identity: Seq<char>,
        compiler_callable_id: Option<Seq<char>>,
        compiler_class_id: Option<Seq<char>>,
        projected_shape: JsonModel,
    },
    Use {
        relation_kind: Seq<char>,
        source_owner: Seq<char>,
        target_callable_id: Seq<char>,
        target_symbol_identity: Option<Seq<char>>,
        target_repository_namespace: Option<Seq<char>>,
        target_resolution: TargetResolution,
    },
    Boundary {
        stage: Seq<char>,
        code: Seq<char>,
        subject: Option<Seq<char>>,
        required_checks: Seq<Seq<char>>,
    },
}

impl DeepView for ImpactFindingDetail {
    type V = ImpactFindingDetailModel;

    open spec fn deep_view(&self) -> ImpactFindingDetailModel {
        match self {
            ImpactFindingDetail::Declaration { declaration_kind, symbol_identity, compiler_callable_id, compiler_class_id, projected_shape } => ImpactFindingDetailModel::Declaration {
                declaration_kind: declaration_kind.deep_view(),
                symbol_identity: symbol_identity.deep_view(),
                compiler_callable_id: compiler_callable_id.deep_view(),
                compiler_class_id: compiler_class_id.deep_view(),
                projected_shape: projected_shape.deep_view(),
            },
            ImpactFindingDetail::Use { relation_kind, source_owner, target_callable_id, target_symbol_identity, target_repository_namespace, target_resolution } => ImpactFindingDetailModel::Use {
                relation_kind: relation_kind.deep_view(),
                source_owner: source_owner.deep_view(),
                target_callable_id: target_callable_id.deep_view(),
                target_symbol_identity: target_symbol_identity.deep_view(),
                target_repository_namespace: target_repository_namespace.deep_view(),
                target_resolution: target_resolution.deep_view(),
            },
            ImpactFindingDetail::Boundary { stage, code, subject, required_checks } => ImpactFindingDetailModel::Boundary {
                stage: stage.deep_view(),
                code: code.deep_view(),
                subject: subject.deep_view(),
                required_checks: required_checks.deep_view(),
            },
        }
    }
}

impl Record for ImpactFindingDetail {
    open spec fn json(v: ImpactFindingDetailModel) -> JsonModel {
        match v {
            ImpactFindingDetailModel::Declaration { declaration_kind, symbol_identity, compiler_callable_id, compiler_class_id, projected_shape } => JsonModel::object()
                .with("kind"@, JsonModel::Str("DECLARATION"@))
                .with("detail"@, JsonModel::object()
                    .with("declarationKind"@, <DeclarationKind as Record>::json(declaration_kind))
                    .with("symbolIdentity"@, <String as Record>::json(symbol_identity))
                    .with_some("compilerCallableId"@, match compiler_callable_id { Some(x) => Some(<String as Record>::json(x)), None => None })
                    .with_some("compilerClassId"@, match compiler_class_id { Some(x) => Some(<String as Record>::json(x)), None => None })
                    .with("projectedShape"@, <Json as Record>::json(projected_shape))),
            ImpactFindingDetailModel::Use { relation_kind, source_owner, target_callable_id, target_symbol_identity, target_repository_namespace, target_resolution } => JsonModel::object()
                .with("kind"@, JsonModel::Str("USE"@))
                .with("detail"@, JsonModel::object()
                    .with("relationKind"@, <String as Record>::json(relation_kind))
                    .with("sourceOwner"@, <String as Record>::json(source_owner))
                    .with("targetCallableId"@, <String as Record>::json(target_callable_id))
                    .with_some("targetSymbolIdentity"@, match target_symbol_identity { Some(x) => Some(<String as Record>::json(x)), None => None })
                    .with_some("targetRepositoryNamespace"@, match target_repository_namespace { Some(x) => Some(<String as Record>::json(x)), None => None })
                    .with("targetResolution"@, <TargetResolution as Record>::json(target_resolution))),
            ImpactFindingDetailModel::Boundary { stage, code, subject, required_checks } => JsonModel::object()
                .with("kind"@, JsonModel::Str("BOUNDARY"@))
                .with("detail"@, JsonModel::object()
                    .with("stage"@, <String as Record>::json(stage))
                    .with("code"@, <String as Record>::json(code))
                    .with_some("subject"@, match subject { Some(x) => Some(<String as Record>::json(x)), None => None })
                    .with("requiredChecks"@, <Vec<String> as Record>::json(required_checks))),
        }
    }

    fn copied(&self) -> (r: ImpactFindingDetail) {
        match self {
            ImpactFindingDetail::Declaration { declaration_kind, symbol_identity, compiler_callable_id, compiler_class_id, projected_shape } => ImpactFindingDetail::Declaration {
                declaration_kind: declaration_kind.copied(),
                symbol_identity: symbol_identity.copied(),
                compiler_callable_id: compiler_callable_id.copied(),
                compiler_class_id: compiler_class_id.copied(),
                projected_shape: projected_shape.copied(),
            },
            ImpactFindingDetail::Use { relation_kind, source_owner, target_callable_id, target_symbol_identity, target_repository_namespace, target_resolution } => ImpactFindingDetail::Use {
                relation_kind: relation_kind.copied(),
                source_owner: source_owner.copied(),
                target_callable_id: target_callable_id.copied(),
                target_symbol_identity: target_symbol_identity.copied(),
                target_repository_namespace: target_repository_namespace.copied(),
                target_resolution: target_resolution.copied(),
            },
            ImpactFindingDetail::Boundary { stage, code, subject, required_checks } => ImpactFindingDetail::Boundary {
                stage: stage.copied(),
                code: code.copied(),
                subject: subject.copied(),
                required_checks: required_checks.copied(),
            },
        }
    }

    fn same_as(&self, other: &ImpactFindingDetail) -> (r: bool) {
        match (self, other) {
            (ImpactFindingDetail::Declaration { declaration_kind: a0, symbol_identity: a1, compiler_callable_id: a2, compiler_class_id: a3, projected_shape: a4 }, ImpactFindingDetail::Declaration { declaration_kind: b0, symbol_identity: b1, compiler_callable_id: b2, compiler_class_id: b3, projected_shape: b4 }) => a0.same_as(b0) && a1.same_as(b1) && a2.same_as(b2) && a3.same_as(b3) && a4.same_as(b4),
            (ImpactFindingDetail::Use { relation_kind: a0, source_owner: a1, target_callable_id: a2, target_symbol_identity: a3, target_repository_namespace: a4, target_resolution: a5 }, ImpactFindingDetail::Use { relation_kind: b0, source_owner: b1, target_callable_id: b2, target_symbol_identity: b3, target_repository_namespace: b4, target_resolution: b5 }) => a0.same_as(b0) && a1.same_as(b1) && a2.same_as(b2) && a3.same_as(b3) && a4.same_as(b4) && a5.same_as(b5),
            (ImpactFindingDetail::Boundary { stage: a0, code: a1, subject: a2, required_checks: a3 }, ImpactFindingDetail::Boundary { stage: b0, code: b1, subject: b2, required_checks: b3 }) => a0.same_as(b0) && a1.same_as(b1) && a2.same_as(b2) && a3.same_as(b3),
            _ => false,
        }
    }

    fn to_json(&self) -> (r: Json) {
        match self {
            ImpactFindingDetail::Declaration { declaration_kind, symbol_identity, compiler_callable_id, compiler_class_id, projected_shape } => Json::object()
                .with("kind", Json::Str("DECLARATION".to_owned()))
                .with("detail", Json::object()
                    .with("declarationKind", declaration_kind.to_json())
                    .with("symbolIdentity", symbol_identity.to_json())
                    .with_some("compilerCallableId", match compiler_callable_id { Some(x) => Some(x.to_json()), None => None })
                    .with_some("compilerClassId", match compiler_class_id { Some(x) => Some(x.to_json()), None => None })
                    .with("projectedShape", projected_shape.to_json())),
            ImpactFindingDetail::Use { relation_kind, source_owner, target_callable_id, target_symbol_identity, target_repository_namespace, target_resolution } => Json::object()
                .with("kind", Json::Str("USE".to_owned()))
                .with("detail", Json::object()
                    .with("relationKind", relation_kind.to_json())
                    .with("sourceOwner", source_owner.to_json())
                    .with("targetCallableId", target_callable_id.to_json())
                    .with_some("targetSymbolIdentity", match target_symbol_identity { Some(x) => Some(x.to_json()), None => None })
                    .with_some("targetRepositoryNamespace", match target_repository_namespace { Some(x) => Some(x.to_json()), None => None })
                    .with("targetResolution", target_resolution.to_json())),
            ImpactFindingDetail::Boundary { stage, code, subject, required_checks } => Json::object()
                .with("kind", Json::Str("BOUNDARY".to_owned()))
                .with("detail", Json::object()
                    .with("stage", stage.to_json())
                    .with("code", code.to_json())
                    .with_some("subject", match subject { Some(x) => Some(x.to_json()), None => None })
                    .with("requiredChecks", required_checks.to_json())),
        }
    }
}

/// One fact about the subject.
#[derive(Debug, PartialEq, Eq)]
pub struct ImpactFinding {
    pub finding_id: String,
    pub side: ImpactSide,
    pub member_alias: String,
    pub fact_kind: CallableFactKind,
    pub authority: ImpactFindingAuthority,
    pub evidence: ImpactFactPointer,
    pub detail: ImpactFindingDetail,
}

/// The model of a [`ImpactFinding`].
pub struct ImpactFindingModel {
    pub finding_id: Seq<char>,
    pub side: ImpactSide,
    pub member_alias: Seq<char>,
    pub fact_kind: CallableFactKind,
    pub authority: ImpactFindingAuthority,
    pub evidence: ImpactFactPointerModel,
    pub detail: ImpactFindingDetailModel,
}

impl DeepView for ImpactFinding {
    type V = ImpactFindingModel;

    open spec fn deep_view(&self) -> ImpactFindingModel {
        ImpactFindingModel {
            finding_id: self.finding_id.deep_view(),
            side: self.side.deep_view(),
            member_alias: self.member_alias.deep_view(),
            fact_kind: self.fact_kind.deep_view(),
            authority: self.authority.deep_view(),
            evidence: self.evidence.deep_view(),
            detail: self.detail.deep_view(),
        }
    }
}

impl Record for ImpactFinding {
    open spec fn json(v: ImpactFindingModel) -> JsonModel {
        JsonModel::object()
            .with("findingId"@, <String as Record>::json(v.finding_id))
            .with("side"@, <ImpactSide as Record>::json(v.side))
            .with("memberAlias"@, <String as Record>::json(v.member_alias))
            .with("factKind"@, <CallableFactKind as Record>::json(v.fact_kind))
            .with("authority"@, <ImpactFindingAuthority as Record>::json(v.authority))
            .with("evidence"@, <ImpactFactPointer as Record>::json(v.evidence))
            .with("detail"@, <ImpactFindingDetail as Record>::json(v.detail))
    }

    fn copied(&self) -> (r: ImpactFinding) {
        ImpactFinding {
            finding_id: self.finding_id.copied(),
            side: self.side.copied(),
            member_alias: self.member_alias.copied(),
            fact_kind: self.fact_kind.copied(),
            authority: self.authority.copied(),
            evidence: self.evidence.copied(),
            detail: self.detail.copied(),
        }
    }

    fn same_as(&self, other: &ImpactFinding) -> (r: bool) {
        self.finding_id.same_as(&other.finding_id)
            && self.side.same_as(&other.side)
            && self.member_alias.same_as(&other.member_alias)
            && self.fact_kind.same_as(&other.fact_kind)
            && self.authority.same_as(&other.authority)
            && self.evidence.same_as(&other.evidence)
            && self.detail.same_as(&other.detail)
    }

    fn to_json(&self) -> (r: Json) {
        Json::object()
            .with("findingId", self.finding_id.to_json())
            .with("side", self.side.to_json())
            .with("memberAlias", self.member_alias.to_json())
            .with("factKind", self.fact_kind.to_json())
            .with("authority", self.authority.to_json())
            .with("evidence", self.evidence.to_json())
            .with("detail", self.detail.to_json())
    }
}

/// What is shown of a finding.
#[derive(Debug, PartialEq, Eq)]
pub struct ImpactPublicFinding {
    pub finding_id: String,
    pub side: ImpactSide,
    pub member_alias: String,
    pub fact_id: String,
    pub authority: ImpactFindingAuthority,
    pub shape_digest: Option<String>,
    pub source: Option<SourceAnchor>,
    pub detail: ImpactFindingDetail,
}

/// The model of a [`ImpactPublicFinding`].
pub struct ImpactPublicFindingModel {
    pub finding_id: Seq<char>,
    pub side: ImpactSide,
    pub member_alias: Seq<char>,
    pub fact_id: Seq<char>,
    pub authority: ImpactFindingAuthority,
    pub shape_digest: Option<Seq<char>>,
    pub source: Option<SourceAnchorModel>,
    pub detail: ImpactFindingDetailModel,
}

impl DeepView for ImpactPublicFinding {
    type V = ImpactPublicFindingModel;

    open spec fn deep_view(&self) -> ImpactPublicFindingModel {
        ImpactPublicFindingModel {
            finding_id: self.finding_id.deep_view(),
            side: self.side.deep_view(),
            member_alias: self.member_alias.deep_view(),
            fact_id: self.fact_id.deep_view(),
            authority: self.authority.deep_view(),
            shape_digest: self.shape_digest.deep_view(),
            source: self.source.deep_view(),
            detail: self.detail.deep_view(),
        }
    }
}

impl Record for ImpactPublicFinding {
    open spec fn json(v: ImpactPublicFindingModel) -> JsonModel {
        JsonModel::object()
            .with("findingId"@, <String as Record>::json(v.finding_id))
            .with("side"@, <ImpactSide as Record>::json(v.side))
            .with("memberAlias"@, <String as Record>::json(v.member_alias))
            .with("factId"@, <String as Record>::json(v.fact_id))
            .with("authority"@, <ImpactFindingAuthority as Record>::json(v.authority))
            .with_some("shapeDigest"@, match v.shape_digest { Some(x) => Some(<String as Record>::json(x)), None => None })
            .with_some("source"@, match v.source { Some(x) => Some(<SourceAnchor as Record>::json(x)), None => None })
            .with("detail"@, <ImpactFindingDetail as Record>::json(v.detail))
    }

    fn copied(&self) -> (r: ImpactPublicFinding) {
        ImpactPublicFinding {
            finding_id: self.finding_id.copied(),
            side: self.side.copied(),
            member_alias: self.member_alias.copied(),
            fact_id: self.fact_id.copied(),
            authority: self.authority.copied(),
            shape_digest: self.shape_digest.copied(),
            source: self.source.copied(),
            detail: self.detail.copied(),
        }
    }

    fn same_as(&self, other: &ImpactPublicFinding) -> (r: bool) {
        self.finding_id.same_as(&other.finding_id)
            && self.side.same_as(&other.side)
            && self.member_alias.same_as(&other.member_alias)
            && self.fact_id.same_as(&other.fact_id)
            && self.authority.same_as(&other.authority)
            && self.shape_digest.same_as(&other.shape_digest)
            && self.source.same_as(&other.source)
            && self.detail.same_as(&other.detail)
    }

    fn to_json(&self) -> (r: Json) {
        Json::object()
            .with("findingId", self.finding_id.to_json())
            .with("side", self.side.to_json())
            .with("memberAlias", self.member_alias.to_json())
            .with("factId", self.fact_id.to_json())
            .with("authority", self.authority.to_json())
            .with_some("shapeDigest", match &self.shape_digest { Some(x) => Some(x.to_json()), None => None })
            .with_some("source", match &self.source { Some(x) => Some(x.to_json()), None => None })
            .with("detail", self.detail.to_json())
    }
}

/// A place in the sources that findings stand at.
#[derive(Debug, PartialEq, Eq)]
pub struct ImpactSourceWindow {
    pub window_id: String,
    pub side: ImpactSide,
    pub member_alias: String,
    pub anchor: SourceAnchor,
    pub span_bytes: usize,
    pub finding_ids: Vec<String>,
}

/// The model of a [`ImpactSourceWindow`].
pub struct ImpactSourceWindowModel {
    pub window_id: Seq<char>,
    pub side: ImpactSide,
    pub member_alias: Seq<char>,
    pub anchor: SourceAnchorModel,
    pub span_bytes: usize,
    pub finding_ids: Seq<Seq<char>>,
}

impl DeepView for ImpactSourceWindow {
    type V = ImpactSourceWindowModel;

    open spec fn deep_view(&self) -> ImpactSourceWindowModel {
        ImpactSourceWindowModel {
            window_id: self.window_id.deep_view(),
            side: self.side.deep_view(),
            member_alias: self.member_alias.deep_view(),
            anchor: self.anchor.deep_view(),
            span_bytes: self.span_bytes.deep_view(),
            finding_ids: self.finding_ids.deep_view(),
        }
    }
}

impl Record for ImpactSourceWindow {
    open spec fn json(v: ImpactSourceWindowModel) -> JsonModel {
        JsonModel::object()
            .with("windowId"@, <String as Record>::json(v.window_id))
            .with("side"@, <ImpactSide as Record>::json(v.side))
            .with("memberAlias"@, <String as Record>::json(v.member_alias))
            .with("anchor"@, <SourceAnchor as Record>::json(v.anchor))
            .with("spanBytes"@, <usize as Record>::json(v.span_bytes))
            .with("findingIds"@, <Vec<String> as Record>::json(v.finding_ids))
    }

    fn copied(&self) -> (r: ImpactSourceWindow) {
        ImpactSourceWindow {
            window_id: self.window_id.copied(),
            side: self.side.copied(),
            member_alias: self.member_alias.copied(),
            anchor: self.anchor.copied(),
            span_bytes: self.span_bytes.copied(),
            finding_ids: self.finding_ids.copied(),
        }
    }

    fn same_as(&self, other: &ImpactSourceWindow) -> (r: bool) {
        self.window_id.same_as(&other.window_id)
            && self.side.same_as(&other.side)
            && self.member_alias.same_as(&other.member_alias)
            && self.anchor.same_as(&other.anchor)
            && self.span_bytes.same_as(&other.span_bytes)
            && self.finding_ids.same_as(&other.finding_ids)
    }

    fn to_json(&self) -> (r: Json) {
        Json::object()
            .with("windowId", self.window_id.to_json())
            .with("side", self.side.to_json())
            .with("memberAlias", self.member_alias.to_json())
            .with("anchor", self.anchor.to_json())
            .with("spanBytes", self.span_bytes.to_json())
            .with("findingIds", self.finding_ids.to_json())
    }
}

/// What is still to be done before an impact can be relied on.
#[derive(Clone, Copy, Debug, PartialEq, Eq, Structural)]
pub enum ImpactObligationCode {
    SubjectNotObservedInMember,
    ProjectedDeclarationNotObserved,
    DisambiguateOverloadSet,
    CompleteDescriptorScope,
    VerifyDeclarationEvidence,
    VerifyUseEvidence,
    VerifyRelatedBoundary,
    VerifyBoundaryCheck,
    VerifyFactSetBoundaryScope,
    VerifyRelationshipAuthority,
    ResolveNavigationSubject,
    NarrowOrExpandQuery,
}

impl DeepView for ImpactObligationCode {
    type V = ImpactObligationCode;

    open spec fn deep_view(&self) -> ImpactObligationCode {
        *self
    }
}

impl ImpactObligationCode {
    /// The name that is written for a value.
    pub open spec fn name(self) -> Seq<char> {
        match self {
            ImpactObligationCode::SubjectNotObservedInMember => "SUBJECT_NOT_OBSERVED_IN_MEMBER"@,
            ImpactObligationCode::ProjectedDeclarationNotObserved => "PROJECTED_DECLARATION_NOT_OBSERVED"@,
            ImpactObligationCode::DisambiguateOverloadSet => "DISAMBIGUATE_OVERLOAD_SET"@,
            ImpactObligationCode::CompleteDescriptorScope => "COMPLETE_DESCRIPTOR_SCOPE"@,
            ImpactObligationCode::VerifyDeclarationEvidence => "VERIFY_DECLARATION_EVIDENCE"@,
            ImpactObligationCode::VerifyUseEvidence => "VERIFY_USE_EVIDENCE"@,
            ImpactObligationCode::VerifyRelatedBoundary => "VERIFY_RELATED_BOUNDARY"@,
            ImpactObligationCode::VerifyBoundaryCheck => "VERIFY_BOUNDARY_CHECK"@,
            ImpactObligationCode::VerifyFactSetBoundaryScope => "VERIFY_FACT_SET_BOUNDARY_SCOPE"@,
            ImpactObligationCode::VerifyRelationshipAuthority => "VERIFY_RELATIONSHIP_AUTHORITY"@,
            ImpactObligationCode::ResolveNavigationSubject => "RESOLVE_NAVIGATION_SUBJECT"@,
            ImpactObligationCode::NarrowOrExpandQuery => "NARROW_OR_EXPAND_QUERY"@,
        }
    }
}

impl Record for ImpactObligationCode {
    open spec fn json(v: ImpactObligationCode) -> JsonModel {
        JsonModel::Str(v.name())
    }

    fn copied(&self) -> (r: ImpactObligationCode) {
        *self
    }

    fn same_as(&self, other: &ImpactObligationCode) -> (r: bool) {
        *self == *other
    }

    fn to_json(&self) -> (r: Json) {
        let name = match self {
            ImpactObligationCode::SubjectNotObservedInMember => "SUBJECT_NOT_OBSERVED_IN_MEMBER",
            ImpactObligationCode::ProjectedDeclarationNotObserved => "PROJECTED_DECLARATION_NOT_OBSERVED",
            ImpactObligationCode::DisambiguateOverloadSet => "DISAMBIGUATE_OVERLOAD_SET",
            ImpactObligationCode::CompleteDescriptorScope => "COMPLETE_DESCRIPTOR_SCOPE",
            ImpactObligationCode::VerifyDeclarationEvidence => "VERIFY_DECLARATION_EVIDENCE",
            ImpactObligationCode::VerifyUseEvidence => "VERIFY_USE_EVIDENCE",
            ImpactObligationCode::VerifyRelatedBoundary => "VERIFY_RELATED_BOUNDARY",
            ImpactObligationCode::VerifyBoundaryCheck => "VERIFY_BOUNDARY_CHECK",
            ImpactObligationCode::VerifyFactSetBoundaryScope => "VERIFY_FACT_SET_BOUNDARY_SCOPE",
            ImpactObligationCode::VerifyRelationshipAuthority => "VERIFY_RELATIONSHIP_AUTHORITY",
            ImpactObligationCode::ResolveNavigationSubject => "RESOLVE_NAVIGATION_SUBJECT",
            ImpactObligationCode::NarrowOrExpandQuery => "NARROW_OR_EXPAND_QUERY",
        };
        Json::Str(name.to_owned())
    }
}

impl ImpactObligationCode {
    /// The place of a value in the order of the values.
    pub open spec fn rank(self) -> u64 {
        match self {
            ImpactObligationCode::SubjectNotObservedInMember => 0,
            ImpactObligationCode::ProjectedDeclarationNotObserved => 1,
            ImpactObligationCode::DisambiguateOverloadSet => 2,
            ImpactObligationCode::CompleteDescriptorScope => 3,
            ImpactObligationCode::VerifyDeclarationEvidence => 4,
            ImpactObligationCode::VerifyUseEvidence => 5,
            ImpactObligationCode::VerifyRelatedBoundary => 6,
            ImpactObligationCode::VerifyBoundaryCheck => 7,
            ImpactObligationCode::VerifyFactSetBoundaryScope => 8,
            ImpactObligationCode::VerifyRelationshipAuthority => 9,
            ImpactObligationCode::ResolveNavigationSubject => 10,
            ImpactObligationCode::NarrowOrExpandQuery => 11,
        }
    }

    pub(crate) fn to_rank(self) -> (r: u64)
        ensures
            r == self.rank(),
    {
        match self {
            ImpactObligationCode::SubjectNotObservedInMember => 0,
            ImpactObligationCode::ProjectedDeclarationNotObserved => 1,
            ImpactObligationCode::DisambiguateOverloadSet => 2,
            ImpactObligationCode::CompleteDescriptorScope => 3,
            ImpactObligationCode::VerifyDeclarationEvidence => 4,
            ImpactObligationCode::VerifyUseEvidence => 5,
            ImpactObligationCode::VerifyRelatedBoundary => 6,
            ImpactObligationCode::VerifyBoundaryCheck => 7,
            ImpactObligationCode::VerifyFactSetBoundaryScope => 8,
            ImpactObligationCode::VerifyRelationshipAuthority => 9,
            ImpactObligationCode::ResolveNavigationSubject => 10,
            ImpactObligationCode::NarrowOrExpandQuery => 11,
        }
    }
}

/// Something still to be done, and what it is about.
#[derive(Debug, PartialEq, Eq)]
pub struct ImpactObligation {
    pub code: ImpactObligationCode,
    pub member_alias: Option<String>,
    pub fact_id: Option<String>,
    pub required_check: Option<String>,
}

/// The model of a [`ImpactObligation`].
pub struct ImpactObligationModel {
    pub code: ImpactObligationCode,
    pub member_alias: Option<Seq<char>>,
    pub fact_id: Option<Seq<char>>,
    pub required_check: Option<Seq<char>>,
}

impl DeepView for ImpactObligation {
    type V = ImpactObligationModel;

    open spec fn deep_view(&self) -> ImpactObligationModel {
        ImpactObligationModel {
            code: self.code.deep_view(),
            member_alias: self.member_alias.deep_view(),
            fact_id: self.fact_id.deep_view(),
            required_check: self.required_check.deep_view(),
        }
    }
}

impl Record for ImpactObligation {
    open spec fn json(v: ImpactObligationModel) -> JsonModel {
        JsonModel::object()
            .with("code"@, <ImpactObligationCode as Record>::json(v.code))
            .with_some("memberAlias"@, match v.member_alias { Some(x) => Some(<String as Record>::json(x)), None => None })
            .with_some("factId"@, match v.fact_id { Some(x) => Some(<String as Record>::json(x)), None => None })
            .with_some("requiredCheck"@, match v.required_check { Some(x) => Some(<String as Record>::json(x)), None => None })
    }

    fn copied(&self) -> (r: ImpactObligation) {
        ImpactObligation {
            code: self.code.copied(),
            member_alias: self.member_alias.copied(),
            fact_id: self.fact_id.copied(),
            required_check: self.required_check.copied(),
        }
    }

    fn same_as(&self, other: &ImpactObligation) -> (r: bool) {
        self.code.same_as(&other.code)
            && self.member_alias.same_as(&other.member_alias)
            && self.fact_id.same_as(&other.fact_id)
            && self.required_check.same_as(&other.required_check)
    }

    fn to_json(&self) -> (r: Json) {
        Json::object()
            .with("code", self.code.to_json())
            .with_some("memberAlias", match &self.member_alias { Some(x) => Some(x.to_json()), None => None })
            .with_some("factId", match &self.fact_id { Some(x) => Some(x.to_json()), None => None })
            .with_some("requiredCheck", match &self.required_check { Some(x) => Some(x.to_json()), None => None })
    }
}

/// What was found in a member.
#[derive(Debug, PartialEq, Eq)]
pub struct ImpactMemberResult {
    pub side: ImpactSide,
    pub member_alias: String,
    pub repository_namespace: String,
    pub observed: bool,
    pub matched_finding_count: usize,
    pub selected_finding_count: usize,
    pub declaration_count: usize,
    pub use_count: usize,
    pub boundary_count: usize,
    pub exact_shape_digest: Option<String>,
}

/// The model of a [`ImpactMemberResult`].
pub struct ImpactMemberResultModel {
    pub side: ImpactSide,
    pub member_alias: Seq<char>,
    pub repository_namespace: Seq<char>,
    pub observed: bool,
    pub matched_finding_count: usize,
    pub selected_finding_count: usize,
    pub declaration_count: usize,
    pub use_count: usize,
    pub boundary_count: usize,
    pub exact_shape_digest: Option<Seq<char>>,
}

impl DeepView for ImpactMemberResult {
    type V = ImpactMemberResultModel;

    open spec fn deep_view(&self) -> ImpactMemberResultModel {
        ImpactMemberResultModel {
            side: self.side.deep_view(),
            member_alias: self.member_alias.deep_view(),
            repository_namespace: self.repository_namespace.deep_view(),
            observed: self.observed.deep_view(),
            matched_finding_count: self.matched_finding_count.deep_view(),
            selected_finding_count: self.selected_finding_count.deep_view(),
            declaration_count: self.declaration_count.deep_view(),
            use_count: self.use_count.deep_view(),
            boundary_count: self.boundary_count.deep_view(),
            exact_shape_digest: self.exact_shape_digest.deep_view(),
        }
    }
}

impl Record for ImpactMemberResult {
    open spec fn json(v: ImpactMemberResultModel) -> JsonModel {
        JsonModel::object()
            .with("side"@, <ImpactSide as Record>::json(v.side))
            .with("memberAlias"@, <String as Record>::json(v.member_alias))
            .with("repositoryNamespace"@, <String as Record>::json(v.repository_namespace))
            .with("observed"@, <bool as Record>::json(v.observed))
            .with("matchedFindingCount"@, <usize as Record>::json(v.matched_finding_count))
            .with("selectedFindingCount"@, <usize as Record>::json(v.selected_finding_count))
            .with("declarationCount"@, <usize as Record>::json(v.declaration_count))
            .with("useCount"@, <usize as Record>::json(v.use_count))
            .with("boundaryCount"@, <usize as Record>::json(v.boundary_count))
            .with_some("exactShapeDigest"@, match v.exact_shape_digest { Some(x) => Some(<String as Record>::json(x)), None => None })
    }

    fn copied(&self) -> (r: ImpactMemberResult) {
        ImpactMemberResult {
            side: self.side.copied(),
            member_alias: self.member_alias.copied(),
            repository_namespace: self.repository_namespace.copied(),
            observed: self.observed.copied(),
            matched_finding_count: self.matched_finding_count.copied(),
            selected_finding_count: self.selected_finding_count.copied(),
            declaration_count: self.declaration_count.copied(),
            use_count: self.use_count.copied(),
            boundary_count: self.boundary_count.copied(),
            exact_shape_digest: self.exact_shape_digest.copied(),
        }
    }

    fn same_as(&self, other: &ImpactMemberResult) -> (r: bool) {
        self.side.same_as(&other.side)
            && self.member_alias.same_as(&other.member_alias)
            && self.repository_namespace.same_as(&other.repository_namespace)
            && self.observed.same_as(&other.observed)
            && self.matched_finding_count.same_as(&other.matched_finding_count)
            && self.selected_finding_count.same_as(&other.selected_finding_count)
            && self.declaration_count.same_as(&other.declaration_count)
            && self.use_count.same_as(&other.use_count)
            && self.boundary_count.same_as(&other.boundary_count)
            && self.exact_shape_digest.same_as(&other.exact_shape_digest)
    }

    fn to_json(&self) -> (r: Json) {
        Json::object()
            .with("side", self.side.to_json())
            .with("memberAlias", self.member_alias.to_json())
            .with("repositoryNamespace", self.repository_namespace.to_json())
            .with("observed", self.observed.to_json())
            .with("matchedFindingCount", self.matched_finding_count.to_json())
            .with("selectedFindingCount", self.selected_finding_count.to_json())
            .with("declarationCount", self.declaration_count.to_json())
            .with("useCount", self.use_count.to_json())
            .with("boundaryCount", self.boundary_count.to_json())
            .with_some("exactShapeDigest", match &self.exact_shape_digest { Some(x) => Some(x.to_json()), None => None })
    }
}

/// What was selected of the facts about the subject.
#[derive(Debug, PartialEq, Eq)]
pub struct ImpactQuerySelection {
    pub schema: String,
    pub binding_digest: String,
    pub fact_set_authority_digest: String,
    pub pair: CallablePairBinding,
    pub subject: KotlinImpactSubject,
    pub query_index_ref: CasObject,
    pub fact_set_evidence_ref: CasObject,
    pub consulted_query_shard_refs: Vec<CasObject>,
    pub relationship_authority: RelationshipAuthority,
    pub shape_status: ImpactShapeStatus,
    pub certainty: ImpactCertainty,
    pub members: Vec<ImpactMemberResult>,
    pub findings: Vec<ImpactFinding>,
    pub obligation_evidence: Vec<ImpactFactPointer>,
    pub source_windows: Vec<ImpactSourceWindow>,
    pub obligations: Vec<ImpactObligation>,
    pub findings_truncated: bool,
    pub source_windows_truncated: bool,
}

/// The model of a [`ImpactQuerySelection`].
pub struct ImpactQuerySelectionModel {
    pub schema: Seq<char>,
    pub binding_digest: Seq<char>,
    pub fact_set_authority_digest: Seq<char>,
    pub pair: CallablePairBindingModel,
    pub subject: KotlinImpactSubjectModel,
    pub query_index_ref: CasObjectModel,
    pub fact_set_evidence_ref: CasObjectModel,
    pub consulted_query_shard_refs: Seq<CasObjectModel>,
    pub relationship_authority: RelationshipAuthority,
    pub shape_status: ImpactShapeStatus,
    pub certainty: ImpactCertainty,
    pub members: Seq<ImpactMemberResultModel>,
    pub findings: Seq<ImpactFindingModel>,
    pub obligation_evidence: Seq<ImpactFactPointerModel>,
    pub source_windows: Seq<ImpactSourceWindowModel>,
    pub obligations: Seq<ImpactObligationModel>,
    pub findings_truncated: bool,
    pub source_windows_truncated: bool,
}

impl DeepView for ImpactQuerySelection {
    type V = ImpactQuerySelectionModel;

    open spec fn deep_view(&self) -> ImpactQuerySelectionModel {
        ImpactQuerySelectionModel {
            schema: self.schema.deep_view(),
            binding_digest: self.binding_digest.deep_view(),
            fact_set_authority_digest: self.fact_set_authority_digest.deep_view(),
            pair: self.pair.deep_view(),
            subject: self.subject.deep_view(),
            query_index_ref: self.query_index_ref.deep_view(),
            fact_set_evidence_ref: self.fact_set_evidence_ref.deep_view(),
            consulted_query_shard_refs: self.consulted_query_shard_refs.deep_view(),
            relationship_authority: self.relationship_authority.deep_view(),
            shape_status: self.shape_status.deep_view(),
            certainty: self.certainty.deep_view(),
            members: self.members.deep_view(),
            findings: self.findings.deep_view(),
            obligation_evidence: self.obligation_evidence.deep_view(),
            source_windows: self.source_windows.deep_view(),
            obligations: self.obligations.deep_view(),
            findings_truncated: self.findings_truncated.deep_view(),
            source_windows_truncated: self.source_windows_truncated.deep_view(),
        }
    }
}

impl Record for ImpactQuerySelection {
    open spec fn json(v: ImpactQuerySelectionModel) -> JsonModel {
        JsonModel::object()
            .with("schema"@, <String as Record>::json(v.schema))
            .with("bindingDigest"@, <String as Record>::json(v.binding_digest))
            .with("factSetAuthorityDigest"@, <String as Record>::json(v.fact_set_authority_digest))
            .with("pair"@, <CallablePairBinding as Record>::json(v.pair))
            .with("subject"@, <KotlinImpactSubject as Record>::json(v.subject))
            .with("queryIndexRef"@, <CasObject as Record>::json(v.query_index_ref))
            .with("factSetEvidenceRef"@, <CasObject as Record>::json(v.fact_set_evidence_ref))
            .with("consultedQueryShardRefs"@, <Vec<CasObject> as Record>::json(v.consulted_query_shard_refs))
            .with("relationshipAuthority"@, <RelationshipAuthority as Record>::json(v.relationship_authority))
            .with("shapeStatus"@, <ImpactShapeStatus as Record>::json(v.shape_status))
            .with("certainty"@, <ImpactCertainty as Record>::json(v.certainty))
            .with("members"@, <Vec<ImpactMemberResult> as Record>::json(v.members))
            .with("findings"@, <Vec<ImpactFinding> as Record>::json(v.findings))
            .with("obligationEvidence"@, <Vec<ImpactFactPointer> as Record>::json(v.obligation_evidence))
            .with("sourceWindows"@, <Vec<ImpactSourceWindow> as Record>::json(v.source_windows))
            .with("obligations"@, <Vec<ImpactObligation> as Record>::json(v.obligations))
            .with("findingsTruncated"@, <bool as Record>::json(v.findings_truncated))
            .with("sourceWindowsTruncated"@, <bool as Record>::json(v.source_windows_truncated))
    }

    fn copied(&self) -> (r: ImpactQuerySelection) {
        ImpactQuerySelection {
            schema: self.schema.copied(),
            binding_digest: self.binding_digest.copied(),
            fact_set_authority_digest: self.fact_set_authority_digest.copied(),
            pair: self.pair.copied(),
            subject: self.subject.copied(),
            query_index_ref: self.query_index_ref.copied(),
            fact_set_evidence_ref: self.fact_set_evidence_ref.copied(),
            consulted_query_shard_refs: self.consulted_query_shard_refs.copied(),
            relationship_authority: self.relationship_authority.copied(),
            shape_status: self.shape_status.copied(),
            certainty: self.certainty.copied(),
            members: self.members.copied(),
            findings: self.findings.copied(),
            obligation_evidence: self.obligation_evidence.copied(),
            source_windows: self.source_windows.copied(),
            obligations: self.obligations.copied(),
            findings_truncated: self.findings_truncated.copied(),
            source_windows_truncated: self.source_windows_truncated.copied(),
        }
    }

    fn same_as(&self, other: &ImpactQuerySelection) -> (r: bool) {
        self.schema.same_as(&other.schema)
            && self.binding_digest.same_as(&other.binding_digest)
            && self.fact_set_authority_digest.same_as(&other.fact_set_authority_digest)
            && self.pair.same_as(&other.pair)
            && self.subject.same_as(&other.subject)
            && self.query_index_ref.same_as(&other.query_index_ref)
            && self.fact_set_evidence_ref.same_as(&other.fact_set_evidence_ref)
            && self.consulted_query_shard_refs.same_as(&other.consulted_query_shard_refs)
            && self.relationship_authority.same_as(&other.relationship_authority)
            && self.shape_status.same_as(&other.shape_status)
            && self.certainty.same_as(&other.certainty)
            && self.members.same_as(&other.members)
            && self.findings.same_as(&other.findings)
            && self.obligation_evidence.same_as(&other.obligation_evidence)
            && self.source_windows.same_as(&other.source_windows)
            && self.obligations.same_as(&other.obligations)
            && self.findings_truncated.same_as(&other.findings_truncated)
            && self.source_windows_truncated.same_as(&other.source_windows_truncated)
    }

    fn to_json(&self) -> (r: Json) {
        Json::object()
            .with("schema", self.schema.to_json())
            .with("bindingDigest", self.binding_digest.to_json())
            .with("factSetAuthorityDigest", self.fact_set_authority_digest.to_json())
            .with("pair", self.pair.to_json())
            .with("subject", self.subject.to_json())
            .with("queryIndexRef", self.query_index_ref.to_json())
            .with("factSetEvidenceRef", self.fact_set_evidence_ref.to_json())
            .with("consultedQueryShardRefs", self.consulted_query_shard_refs.to_json())
            .with("relationshipAuthority", self.relationship_authority.to_json())
            .with("shapeStatus", self.shape_status.to_json())
            .with("certainty", self.certainty.to_json())
            .with("members", self.members.to_json())
            .with("findings", self.findings.to_json())
            .with("obligationEvidence", self.obligation_evidence.to_json())
            .with("sourceWindows", self.source_windows.to_json())
            .with("obligations", self.obligations.to_json())
            .with("findingsTruncated", self.findings_truncated.to_json())
            .with("sourceWindowsTruncated", self.source_windows_truncated.to_json())
    }
}

/// The evidence of an impact.
#[derive(Debug, PartialEq, Eq)]
pub struct ThreadImpactEvidence {
    pub schema: String,
    pub selection: ImpactQuerySelection,
}

/// The model of a [`ThreadImpactEvidence`].
pub struct ThreadImpactEvidenceModel {
    pub schema: Seq<char>,
    pub selection: ImpactQuerySelectionModel,
}

impl DeepView for ThreadImpactEvidence {
    type V = ThreadImpactEvidenceModel;

    open spec fn deep_view(&self) -> ThreadImpactEvidenceModel {
        ThreadImpactEvidenceModel {
            schema: self.schema.deep_view(),
            selection: self.selection.deep_view(),
        }
    }
}

impl Record for ThreadImpactEvidence {
    open spec fn json(v: ThreadImpactEvidenceModel) -> JsonModel {
        JsonModel::object()
            .with("schema"@, <String as Record>::json(v.schema))
            .with("selection"@, <ImpactQuerySelection as Record>::json(v.selection))
    }

    fn copied(&self) -> (r: ThreadImpactEvidence) {
        ThreadImpactEvidence {
            schema: self.schema.copied(),
            selection: self.selection.copied(),
        }
    }

    fn same_as(&self, other: &ThreadImpactEvidence) -> (r: bool) {
        self.schema.same_as(&other.schema)
            && self.selection.same_as(&other.selection)
    }

    fn to_json(&self) -> (r: Json) {
        Json::object()
            .with("schema", self.schema.to_json())
            .with("selection", self.selection.to_json())
    }
}

/// What an impact is bound to.
#[derive(Debug, PartialEq, Eq)]
pub struct ThreadImpactAuthority {
    pub schema: String,
    pub authority_digest: String,
    pub binding_digest: String,
    pub fact_set_authority_digest: String,
    pub request: ThreadImpactRequest,
    pub pair: CallablePairBinding,
    pub relationship_authority: RelationshipAuthority,
    pub shape_status: ImpactShapeStatus,
    pub certainty: ImpactCertainty,
    pub members: Vec<ImpactMemberResult>,
    pub finding_count: usize,
    pub source_window_count: usize,
    pub obligation_count: usize,
    pub findings_truncated: bool,
    pub source_windows_truncated: bool,
    pub public_findings: Vec<ImpactPublicFinding>,
    pub public_findings_truncated: bool,
    pub public_obligations: Vec<ImpactObligation>,
    pub public_source_windows: Vec<ImpactSourceWindow>,
    pub evidence_ref: CasObject,
    pub direct_cas_closure: Vec<CasObject>,
    pub retained_cas_bytes: usize,
    pub new_derived_cas_object_count: usize,
    pub budgets: ImpactBudgets,
}

/// The model of a [`ThreadImpactAuthority`].
pub struct ThreadImpactAuthorityModel {
    pub schema: Seq<char>,
    pub authority_digest: Seq<char>,
    pub binding_digest: Seq<char>,
    pub fact_set_authority_digest: Seq<char>,
    pub request: ThreadImpactRequestModel,
    pub pair: CallablePairBindingModel,
    pub relationship_authority: RelationshipAuthority,
    pub shape_status: ImpactShapeStatus,
    pub certainty: ImpactCertainty,
    pub members: Seq<ImpactMemberResultModel>,
    pub finding_count: usize,
    pub source_window_count: usize,
    pub obligation_count: usize,
    pub findings_truncated: bool,
    pub source_windows_truncated: bool,
    pub public_findings: Seq<ImpactPublicFindingModel>,
    pub public_findings_truncated: bool,
    pub public_obligations: Seq<ImpactObligationModel>,
    pub public_source_windows: Seq<ImpactSourceWindowModel>,
    pub evidence_ref: CasObjectModel,
    pub direct_cas_closure: Seq<CasObjectModel>,
    pub retained_cas_bytes: usize,
    pub new_derived_cas_object_count: usize,
    pub budgets: ImpactBudgetsModel,
}

impl DeepView for ThreadImpactAuthority {
    type V = ThreadImpactAuthorityModel;

    open spec fn deep_view(&self) -> ThreadImpactAuthorityModel {
        ThreadImpactAuthorityModel {
            schema: self.schema.deep_view(),
            authority_digest: self.authority_digest.deep_view(),
            binding_digest: self.binding_digest.deep_view(),
            fact_set_authority_digest: self.fact_set_authority_digest.deep_view(),
            request: self.request.deep_view(),
            pair: self.pair.deep_view(),
            relationship_authority: self.relationship_authority.deep_view(),
            shape_status: self.shape_status.deep_view(),
            certainty: self.certainty.deep_view(),
            members: self.members.deep_view(),
            finding_count: self.finding_count.deep_view(),
            source_window_count: self.source_window_count.deep_view(),
            obligation_count: self.obligation_count.deep_view(),
            findings_truncated: self.findings_truncated.deep_view(),
            source_windows_truncated: self.source_windows_truncated.deep_view(),
            public_findings: self.public_findings.deep_view(),
            public_findings_truncated: self.public_findings_truncated.deep_view(),
            public_obligations: self.public_obligations.deep_view(),
            public_source_windows: self.public_source_windows.deep_view(),
            evidence_ref: self.evidence_ref.deep_view(),
            direct_cas_closure: self.direct_cas_closure.deep_view(),
            retained_cas_bytes: self.retained_cas_bytes.deep_view(),
            new_derived_cas_object_count: self.new_derived_cas_object_count.deep_view(),
            budgets: self.budgets.deep_view(),
        }
    }
}

impl Record for ThreadImpactAuthority {
    open spec fn json(v: ThreadImpactAuthorityModel) -> JsonModel {
        JsonModel::object()
            .with("schema"@, <String as Record>::json(v.schema))
            .with("authorityDigest"@, <String as Record>::json(v.authority_digest))
            .with("bindingDigest"@, <String as Record>::json(v.binding_digest))
            .with("factSetAuthorityDigest"@, <String as Record>::json(v.fact_set_authority_digest))
            .with("request"@, <ThreadImpactRequest as Record>::json(v.request))
            .with("pair"@, <CallablePairBinding as Record>::json(v.pair))
            .with("relationshipAuthority"@, <RelationshipAuthority as Record>::json(v.relationship_authority))
            .with("shapeStatus"@, <ImpactShapeStatus as Record>::json(v.shape_status))
            .with("certainty"@, <ImpactCertainty as Record>::json(v.certainty))
            .with("members"@, <Vec<ImpactMemberResult> as Record>::json(v.members))
            .with("findingCount"@, <usize as Record>::json(v.finding_count))
            .with("sourceWindowCount"@, <usize as Record>::json(v.source_window_count))
            .with("obligationCount"@, <usize as Record>::json(v.obligation_count))
            .with("findingsTruncated"@, <bool as Record>::json(v.findings_truncated))
            .with("sourceWindowsTruncated"@, <bool as Record>::json(v.source_windows_truncated))
            .with("publicFindings"@, <Vec<ImpactPublicFinding> as Record>::json(v.public_findings))
            .with("publicFindingsTruncated"@, <bool as Record>::json(v.public_findings_truncated))
            .with("publicObligations"@, <Vec<ImpactObligation> as Record>::json(v.public_obligations))
            .with("publicSourceWindows"@, <Vec<ImpactSourceWindow> as Record>::json(v.public_source_windows))
            .with("evidenceRef"@, <CasObject as Record>::json(v.evidence_ref))
            .with("directCasClosure"@, <Vec<CasObject> as Record>::json(v.direct_cas_closure))
            .with("retainedCasBytes"@, <usize as Record>::json(v.retained_cas_bytes))
            .with("newDerivedCasObjectCount"@, <usize as Record>::json(v.new_derived_cas_object_count))
            .with("budgets"@, <ImpactBudgets as Record>::json(v.budgets))
    }

    fn copied(&self) -> (r: ThreadImpactAuthority) {
        ThreadImpactAuthority {
            schema: self.schema.copied(),
            authority_digest: self.authority_digest.copied(),
            binding_digest: self.binding_digest.copied(),
            fact_set_authority_digest: self.fact_set_authority_digest.copied(),
            request: self.request.copied(),
            pair: self.pair.copied(),
            relationship_authority: self.relationship_authority.copied(),
            shape_status: self.shape_status.copied(),
            certainty: self.certainty.copied(),
            members: self.members.copied(),
            finding_count: self.finding_count.copied(),
            source_window_count: self.source_window_count.copied(),
            obligation_count: self.obligation_count.copied(),
            findings_truncated: self.findings_truncated.copied(),
            source_windows_truncated: self.source_windows_truncated.copied(),
            public_findings: self.public_findings.copied(),
            public_findings_truncated: self.public_findings_truncated.copied(),
            public_obligations: self.public_obligations.copied(),
            public_source_windows: self.public_source_windows.copied(),
            evidence_ref: self.evidence_ref.copied(),
            direct_cas_closure: self.direct_cas_closure.copied(),
            retained_cas_bytes: self.retained_cas_bytes.copied(),
            new_derived_cas_object_count: self.new_derived_cas_object_count.copied(),
            budgets: self.budgets.copied(),
        }
    }

    fn same_as(&self, other: &ThreadImpactAuthority) -> (r: bool) {
        self.schema.same_as(&other.schema)
            && self.authority_digest.same_as(&other.authority_digest)
            && self.binding_digest.same_as(&other.binding_digest)
            && self.fact_set_authority_digest.same_as(&other.fact_set_authority_digest)
            && self.request.same_as(&other.request)
            && self.pair.same_as(&other.pair)
            && self.relationship_authority.same_as(&other.relationship_authority)
            && self.shape_status.same_as(&other.shape_status)
            && self.certainty.same_as(&other.certainty)
            && self.members.same_as(&other.members)
            && self.finding_count.same_as(&other.finding_count)
            && self.source_window_count.same_as(&other.source_window_count)
            && self.obligation_count.same_as(&other.obligation_count)
            && self.findings_truncated.same_as(&other.findings_truncated)
            && self.source_windows_truncated.same_as(&other.source_windows_truncated)
            && self.public_findings.same_as(&other.public_findings)
            && self.public_findings_truncated.same_as(&other.public_findings_truncated)
            && self.public_obligations.same_as(&other.public_obligations)
            && self.public_source_windows.same_as(&other.public_source_windows)
            && self.evidence_ref.same_as(&other.evidence_ref)
            && self.direct_cas_closure.same_as(&other.direct_cas_closure)
            && self.retained_cas_bytes.same_as(&other.retained_cas_bytes)
            && self.new_derived_cas_object_count.same_as(&other.new_derived_cas_object_count)
            && self.budgets.same_as(&other.budgets)
    }

    fn to_json(&self) -> (r: Json) {
        Json::object()
            .with("schema", self.schema.to_json())
            .with("authorityDigest", self.authority_digest.to_json())
            .with("bindingDigest", self.binding_digest.to_json())
            .with("factSetAuthorityDigest", self.fact_set_authority_digest.to_json())
            .with("request", self.request.to_json())
            .with("pair", self.pair.to_json())
            .with("relationshipAuthority", self.relationship_authority.to_json())
            .with("shapeStatus", self.shape_status.to_json())
            .with("certainty", self.certainty.to_json())
            .with("members", self.members.to_json())
            .with("findingCount", self.finding_count.to_json())
            .with("sourceWindowCount", self.source_window_count.to_json())
            .with("obligationCount", self.obligation_count.to_json())
            .with("findingsTruncated", self.findings_truncated.to_json())
            .with("sourceWindowsTruncated", self.source_windows_truncated.to_json())
            .with("publicFindings", self.public_findings.to_json())
            .with("publicFindingsTruncated", self.public_findings_truncated.to_json())
            .with("publicObligations", self.public_obligations.to_json())
            .with("publicSourceWindows", self.public_source_windows.to_json())
            .with("evidenceRef", self.evidence_ref.to_json())
            .with("directCasClosure", self.direct_cas_closure.to_json())
            .with("retainedCasBytes", self.retained_cas_bytes.to_json())
            .with("newDerivedCasObjectCount", self.new_derived_cas_object_count.to_json())
            .with("budgets", self.budgets.to_json())
    }
}

/// What the digest of an impact is taken of: all but the digest itself.
#[verifier::opaque]
pub open spec fn authority_material(v: ThreadImpactAuthorityModel) -> JsonModel {
    JsonModel::object()
        .with("schema"@, <String as Record>::json(v.schema))
        .with("bindingDigest"@, <String as Record>::json(v.binding_digest))
        .with("factSetAuthorityDigest"@, <String as Record>::json(v.fact_set_authority_digest))
        .with("request"@, <ThreadImpactRequest as Record>::json(v.request))
        .with("pair"@, <CallablePairBinding as Record>::json(v.pair))
        .with("relationshipAuthority"@, <RelationshipAuthority as Record>::json(v.relationship_authority))
        .with("shapeStatus"@, <ImpactShapeStatus as Record>::json(v.shape_status))
        .with("certainty"@, <ImpactCertainty as Record>::json(v.certainty))
        .with("members"@, <Vec<ImpactMemberResult> as Record>::json(v.members))
        .with("findingCount"@, <usize as Record>::json(v.finding_count))
        .with("sourceWindowCount"@, <usize as Record>::json(v.source_window_count))
        .with("obligationCount"@, <usize as Record>::json(v.obligation_count))
        .with("findingsTruncated"@, <bool as Record>::json(v.findings_truncated))
        .with("sourceWindowsTruncated"@, <bool as Record>::json(v.source_windows_truncated))
        .with("publicFindings"@, <Vec<ImpactPublicFinding> as Record>::json(v.public_findings))
        .with("publicFindingsTruncated"@, <bool as Record>::json(v.public_findings_truncated))
        .with("publicObligations"@, <Vec<ImpactObligation> as Record>::json(v.public_obligations))
        .with("publicSourceWindows"@, <Vec<ImpactSourceWindow> as Record>::json(v.public_source_windows))
        .with("evidenceRef"@, <CasObject as Record>::json(v.evidence_ref))
        .with("directCasClosure"@, <Vec<CasObject> as Record>::json(v.direct_cas_closure))
        .with("retainedCasBytes"@, <usize as Record>::json(v.retained_cas_bytes))
        .with("newDerivedCasObjectCount"@, <usize as Record>::json(v.new_derived_cas_object_count))
        .with("budgets"@, <ImpactBudgets as Record>::json(v.budgets))
}

fn write_authority_material(v: &ThreadImpactAuthority) -> (r: Json)
    ensures
        r.deep_view() == authority_material(v.deep_view()),
{
    proof {
        reveal(authority_material);
    }
    Json::object()
        .with("schema", v.schema.to_json())
        .with("bindingDigest", v.binding_digest.to_json())
        .with("factSetAuthorityDigest", v.fact_set_authority_digest.to_json())
        .with("request", v.request.to_json())
        .with("pair", v.pair.to_json())
        .with("relationshipAuthority", v.relationship_authority.to_json())
        .with("shapeStatus", v.shape_status.to_json())
        .with("certainty", v.certainty.to_json())
        .with("members", v.members.to_json())
        .with("findingCount", v.finding_count.to_json())
        .with("sourceWindowCount", v.source_window_count.to_json())
        .with("obligationCount", v.obligation_count.to_json())
        .with("findingsTruncated", v.findings_truncated.to_json())
        .with("sourceWindowsTruncated", v.source_windows_truncated.to_json())
        .with("publicFindings", v.public_findings.to_json())
        .with("publicFindingsTruncated", v.public_findings_truncated.to_json())
        .with("publicObligations", v.public_obligations.to_json())
        .with("publicSourceWindows", v.public_source_windows.to_json())
        .with("evidenceRef", v.evidence_ref.to_json())
        .with("directCasClosure", v.direct_cas_closure.to_json())
        .with("retainedCasBytes", v.retained_cas_bytes.to_json())
        .with("newDerivedCasObjectCount", v.new_derived_cas_object_count.to_json())
        .with("budgets", v.budgets.to_json())
}

/// What is shown of a member.
#[derive(Debug, PartialEq, Eq)]
pub struct ImpactMemberProjection {
    pub side: ImpactSide,
    pub member_alias: String,
    pub observed: bool,
    pub matched_finding_count: usize,
    pub selected_finding_count: usize,
    pub declaration_count: usize,
    pub use_count: usize,
    pub boundary_count: usize,
    pub exact_shape_digest: Option<String>,
}

/// The model of a [`ImpactMemberProjection`].
pub struct ImpactMemberProjectionModel {
    pub side: ImpactSide,
    pub member_alias: Seq<char>,
    pub observed: bool,
    pub matched_finding_count: usize,
    pub selected_finding_count: usize,
    pub declaration_count: usize,
    pub use_count: usize,
    pub boundary_count: usize,
    pub exact_shape_digest: Option<Seq<char>>,
}

impl DeepView for ImpactMemberProjection {
    type V = ImpactMemberProjectionModel;

    open spec fn deep_view(&self) -> ImpactMemberProjectionModel {
        ImpactMemberProjectionModel {
            side: self.side.deep_view(),
            member_alias: self.member_alias.deep_view(),
            observed: self.observed.deep_view(),
            matched_finding_count: self.matched_finding_count.deep_view(),
            selected_finding_count: self.selected_finding_count.deep_view(),
            declaration_count: self.declaration_count.deep_view(),
            use_count: self.use_count.deep_view(),
            boundary_count: self.boundary_count.deep_view(),
            exact_shape_digest: self.exact_shape_digest.deep_view(),
        }
    }
}

impl Record for ImpactMemberProjection {
    open spec fn json(v: ImpactMemberProjectionModel) -> JsonModel {
        JsonModel::object()
            .with("side"@, <ImpactSide as Record>::json(v.side))
            .with("memberAlias"@, <String as Record>::json(v.member_alias))
            .with("observed"@, <bool as Record>::json(v.observed))
            .with("matchedFindingCount"@, <usize as Record>::json(v.matched_finding_count))
            .with("selectedFindingCount"@, <usize as Record>::json(v.selected_finding_count))
            .with("declarationCount"@, <usize as Record>::json(v.declaration_count))
            .with("useCount"@, <usize as Record>::json(v.use_count))
            .with("boundaryCount"@, <usize as Record>::json(v.boundary_count))
            .with_some("exactShapeDigest"@, match v.exact_shape_digest { Some(x) => Some(<String as Record>::json(x)), None => None })
    }

    fn copied(&self) -> (r: ImpactMemberProjection) {
        ImpactMemberProjection {
            side: self.side.copied(),
            member_alias: self.member_alias.copied(),
            observed: self.observed.copied(),
            matched_finding_count: self.matched_finding_count.copied(),
            selected_finding_count: self.selected_finding_count.copied(),
            declaration_count: self.declaration_count.copied(),
            use_count: self.use_count.copied(),
            boundary_count: self.boundary_count.copied(),
            exact_shape_digest: self.exact_shape_digest.copied(),
        }
    }

    fn same_as(&self, other: &ImpactMemberProjection) -> (r: bool) {
        self.side.same_as(&other.side)
            && self.member_alias.same_as(&other.member_alias)
            && self.observed.same_as(&other.observed)
            && self.matched_finding_count.same_as(&other.matched_finding_count)
            && self.selected_finding_count.same_as(&other.selected_finding_count)
            && self.declaration_count.same_as(&other.declaration_count)
            && self.use_count.same_as(&other.use_count)
            && self.boundary_count.same_as(&other.boundary_count)
            && self.exact_shape_digest.same_as(&other.exact_shape_digest)
    }

    fn to_json(&self) -> (r: Json) {
        Json::object()
            .with("side", self.side.to_json())
            .with("memberAlias", self.member_alias.to_json())
            .with("observed", self.observed.to_json())
            .with("matchedFindingCount", self.matched_finding_count.to_json())
            .with("selectedFindingCount", self.selected_finding_count.to_json())
            .with("declarationCount", self.declaration_count.to_json())
            .with("useCount", self.use_count.to_json())
            .with("boundaryCount", self.boundary_count.to_json())
            .with_some("exactShapeDigest", match &self.exact_shape_digest { Some(x) => Some(x.to_json()), None => None })
    }
}

/// What is shown of an impact.
#[derive(Debug, PartialEq, Eq)]
pub struct ThreadImpactProjection {
    pub schema: String,
    pub impact_id: String,
    pub authority_digest: String,
    pub binding_digest: String,
    pub fact_set_authority_digest: String,
    pub pair_id: String,
    pub subject_kind: ImpactSubjectKind,
    pub relationship_authority: RelationshipAuthority,
    pub shape_status: ImpactShapeStatus,
    pub certainty: ImpactCertainty,
    pub members: Vec<ImpactMemberProjection>,
    pub finding_count: usize,
    pub source_window_count: usize,
    pub obligation_count: usize,
    pub findings_truncated: bool,
    pub source_windows_truncated: bool,
    pub findings: Vec<ImpactPublicFinding>,
    pub public_findings_truncated: bool,
    pub obligations: Vec<ImpactObligation>,
    pub source_windows: Vec<ImpactSourceWindow>,
    pub evidence_ref: CasObject,
}

/// The model of a [`ThreadImpactProjection`].
pub struct ThreadImpactProjectionModel {
    pub schema: Seq<char>,
    pub impact_id: Seq<char>,
    pub authority_digest: Seq<char>,
    pub binding_digest: Seq<char>,
    pub fact_set_authority_digest: Seq<char>,
    pub pair_id: Seq<char>,
    pub subject_kind: ImpactSubjectKind,
    pub relationship_authority: RelationshipAuthority,
    pub shape_status: ImpactShapeStatus,
    pub certainty: ImpactCertainty,
    pub members: Seq<ImpactMemberProjectionModel>,
    pub finding_count: usize,
    pub source_window_count: usize,
    pub obligation_count: usize,
    pub findings_truncated: bool,
    pub source_windows_truncated: bool,
    pub findings: Seq<ImpactPublicFindingModel>,
    pub public_findings_truncated: bool,
    pub obligations: Seq<ImpactObligationModel>,
    pub source_windows: Seq<ImpactSourceWindowModel>,
    pub evidence_ref: CasObjectModel,
}

impl DeepView for ThreadImpactProjection {
    type V = ThreadImpactProjectionModel;

    open spec fn deep_view(&self) -> ThreadImpactProjectionModel {
        ThreadImpactProjectionModel {
            schema: self.schema.deep_view(),
            impact_id: self.impact_id.deep_view(),
            authority_digest: self.authority_digest.deep_view(),
            binding_digest: self.binding_digest.deep_view(),
            fact_set_authority_digest: self.fact_set_authority_digest.deep_view(),
            pair_id: self.pair_id.deep_view(),
            subject_kind: self.subject_kind.deep_view(),
            relationship_authority: self.relationship_authority.deep_view(),
            shape_status: self.shape_status.deep_view(),
            certainty: self.certainty.deep_view(),
            members: self.members.deep_view(),
            finding_count: self.finding_count.deep_view(),
            source_window_count: self.source_window_count.deep_view(),
            obligation_count: self.obligation_count.deep_view(),
            findings_truncated: self.findings_truncated.deep_view(),
            source_windows_truncated: self.source_windows_truncated.deep_view(),
            findings: self.findings.deep_view(),
            public_findings_truncated: self.public_findings_truncated.deep_view(),
            obligations: self.obligations.deep_view(),
            source_windows: self.source_windows.deep_view(),
            evidence_ref: self.evidence_ref.deep_view(),
        }
    }
}

impl Record for ThreadImpactProjection {
    open spec fn json(v: ThreadImpactProjectionModel) -> JsonModel {
        JsonModel::object()
            .with("schema"@, <String as Record>::json(v.schema))
            .with("impactId"@, <String as Record>::json(v.impact_id))
            .with("authorityDigest"@, <String as Record>::json(v.authority_digest))
            .with("bindingDigest"@, <String as Record>::json(v.binding_digest))
            .with("factSetAuthorityDigest"@, <String as Record>::json(v.fact_set_authority_digest))
            .with("pairId"@, <String as Record>::json(v.pair_id))
            .with("subjectKind"@, <ImpactSubjectKind as Record>::json(v.subject_kind))
            .with("relationshipAuthority"@, <RelationshipAuthority as Record>::json(v.relationship_authority))
            .with("shapeStatus"@, <ImpactShapeStatus as Record>::json(v.shape_status))
            .with("certainty"@, <ImpactCertainty as Record>::json(v.certainty))
            .with("members"@, <Vec<ImpactMemberProjection> as Record>::json(v.members))
            .with("findingCount"@, <usize as Record>::json(v.finding_count))
            .with("sourceWindowCount"@, <usize as Record>::json(v.source_window_count))
            .with("obligationCount"@, <usize as Record>::json(v.obligation_count))
            .with("findingsTruncated"@, <bool as Record>::json(v.findings_truncated))
            .with("sourceWindowsTruncated"@, <bool as Record>::json(v.source_windows_truncated))
            .with("findings"@, <Vec<ImpactPublicFinding> as Record>::json(v.findings))
            .with("publicFindingsTruncated"@, <bool as Record>::json(v.public_findings_truncated))
            .with("obligations"@, <Vec<ImpactObligation> as Record>::json(v.obligations))
            .with("sourceWindows"@, <Vec<ImpactSourceWindow> as Record>::json(v.source_windows))
            .with("evidenceRef"@, <CasObject as Record>::json(v.evidence_ref))
    }

    fn copied(&self) -> (r: ThreadImpactProjection) {
        ThreadImpactProjection {
            schema: self.schema.copied(),
            impact_id: self.impact_id.copied(),
            authority_digest: self.authority_digest.copied(),
            binding_digest: self.binding_digest.copied(),
            fact_set_authority_digest: self.fact_set_authority_digest.copied(),
            pair_id: self.pair_id.copied(),
            subject_kind: self.subject_kind.copied(),
            relationship_authority: self.relationship_authority.copied(),
            shape_status: self.shape_status.copied(),
            certainty: self.certainty.copied(),
            members: self.members.copied(),
            finding_count: self.finding_count.copied(),
            source_window_count: self.source_window_count.copied(),
            obligation_count: self.obligation_count.copied(),
            findings_truncated: self.findings_truncated.copied(),
            source_windows_truncated: self.source_windows_truncated.copied(),
            findings: self.findings.copied(),
            public_findings_truncated: self.public_findings_truncated.copied(),
            obligations: self.obligations.copied(),
            source_windows: self.source_windows.copied(),
            evidence_ref: self.evidence_ref.copied(),
        }
    }

    fn same_as(&self, other: &ThreadImpactProjection) -> (r: bool) {
        self.schema.same_as(&other.schema)
            && self.impact_id.same_as(&other.impact_id)
            && self.authority_digest.same_as(&other.authority_digest)
            && self.binding_digest.same_as(&other.binding_digest)
            && self.fact_set_authority_digest.same_as(&other.fact_set_authority_digest)
            && self.pair_id.same_as(&other.pair_id)
            && self.subject_kind.same_as(&other.subject_kind)
            && self.relationship_authority.same_as(&other.relationship_authority)
            && self.shape_status.same_as(&other.shape_status)
            && self.certainty.same_as(&other.certainty)
            && self.members.same_as(&other.members)
            && self.finding_count.same_as(&other.finding_count)
            && self.source_window_count.same_as(&other.source_window_count)
            && self.obligation_count.same_as(&other.obligation_count)
            && self.findings_truncated.same_as(&other.findings_truncated)
            && self.source_windows_truncated.same_as(&other.source_windows_truncated)
            && self.findings.same_as(&other.findings)
            && self.public_findings_truncated.same_as(&other.public_findings_truncated)
            && self.obligations.same_as(&other.obligations)
            && self.source_windows.same_as(&other.source_windows)
            && self.evidence_ref.same_as(&other.evidence_ref)
    }

    fn to_json(&self) -> (r: Json) {
        Json::object()
            .with("schema", self.schema.to_json())
            .with("impactId", self.impact_id.to_json())
            .with("authorityDigest", self.authority_digest.to_json())
            .with("bindingDigest", self.binding_digest.to_json())
            .with("factSetAuthorityDigest", self.fact_set_authority_digest.to_json())
            .with("pairId", self.pair_id.to_json())
            .with("subjectKind", self.subject_kind.to_json())
            .with("relationshipAuthority", self.relationship_authority.to_json())
            .with("shapeStatus", self.shape_status.to_json())
            .with("certainty", self.certainty.to_json())
            .with("members", self.members.to_json())
            .with("findingCount", self.finding_count.to_json())
            .with("sourceWindowCount", self.source_window_count.to_json())
            .with("obligationCount", self.obligation_count.to_json())
            .with("findingsTruncated", self.findings_truncated.to_json())
            .with("sourceWindowsTruncated", self.source_windows_truncated.to_json())
            .with("findings", self.findings.to_json())
            .with("publicFindingsTruncated", self.public_findings_truncated.to_json())
            .with("obligations", self.obligations.to_json())
            .with("sourceWindows", self.source_windows.to_json())
            .with("evidenceRef", self.evidence_ref.to_json())
    }
}

/// An impact with everything that is to be published of it.
pub struct PreparedThreadImpact {
    pub authority: ThreadImpactAuthority,
    pub evidence: ThreadImpactEvidence,
    pub evidence_object: PreparedCasObject,
    pub authority_bytes: Vec<u8>,
    pub projection: ThreadImpactProjection,
    pub projection_bytes: Vec<u8>,
}

/// The model of a [`PreparedThreadImpact`].
pub struct PreparedThreadImpactModel {
    pub authority: ThreadImpactAuthorityModel,
    pub evidence: ThreadImpactEvidenceModel,
    pub evidence_object: PreparedCasObjectModel,
    pub authority_bytes: Seq<u8>,
    pub projection: ThreadImpactProjectionModel,
    pub projection_bytes: Seq<u8>,
}

impl DeepView for PreparedThreadImpact {
    type V = PreparedThreadImpactModel;

    open spec fn deep_view(&self) -> PreparedThreadImpactModel {
        PreparedThreadImpactModel {
            authority: self.authority.deep_view(),
            evidence: self.evidence.deep_view(),
            evidence_object: self.evidence_object.deep_view(),
            authority_bytes: self.authority_bytes@,
            projection: self.projection.deep_view(),
            projection_bytes: self.projection_bytes@,
        }
    }
}

impl PreparedThreadImpact {
    /// Another value with the same contents.
    pub fn copied(&self) -> (r: PreparedThreadImpact)
        ensures
            r.deep_view() == self.deep_view(),
    {
        PreparedThreadImpact {
            authority: self.authority.copied(),
            evidence: self.evidence.copied(),
            evidence_object: self.evidence_object.copied(),
            authority_bytes: copy_bytes(&self.authority_bytes),
            projection: self.projection.copied(),
            projection_bytes: copy_bytes(&self.projection_bytes),
        }
    }

    /// Whether two values have the same contents.
    pub fn same_as(&self, other: &PreparedThreadImpact) -> (r: bool)
        ensures
            r == (self.deep_view() == other.deep_view()),
    {
        self.authority.same_as(&other.authority)
            && self.evidence.same_as(&other.evidence)
            && self.evidence_object.same_as(&other.evidence_object)
            && same_bytes(self.authority_bytes.as_slice(), other.authority_bytes.as_slice())
            && self.projection.same_as(&other.projection)
            && same_bytes(self.projection_bytes.as_slice(), other.projection_bytes.as_slice())
    }
}

/// A fact with the shard that holds it.
#[derive(Debug, PartialEq, Eq)]
pub struct FactEntry {
    pub fact: CallableFact,
    pub shard_ref: CasObject,
}

/// The model of a [`FactEntry`].
pub struct FactEntryModel {
    pub fact: CallableFactModel,
    pub shard_ref: CasObjectModel,
}

impl DeepView for FactEntry {
    type V = FactEntryModel;

    open spec fn deep_view(&self) -> FactEntryModel {
        FactEntryModel {
            fact: self.fact.deep_view(),
            shard_ref: self.shard_ref.deep_view(),
        }
    }
}

impl Record for FactEntry {
    open spec fn json(v: FactEntryModel) -> JsonModel {
        JsonModel::object()
            .with("fact"@, <CallableFact as Record>::json(v.fact))
            .with("shardRef"@, <CasObject as Record>::json(v.shard_ref))
    }

    fn copied(&self) -> (r: FactEntry) {
        FactEntry {
            fact: self.fact.copied(),
            shard_ref: self.shard_ref.copied(),
        }
    }

    fn same_as(&self, other: &FactEntry) -> (r: bool) {
        self.fact.same_as(&other.fact)
            && self.shard_ref.same_as(&other.shard_ref)
    }

    fn to_json(&self) -> (r: Json) {
        Json::object()
            .with("fact", self.fact.to_json())
            .with("shardRef", self.shard_ref.to_json())
    }
}

/// A fact about the subject, before the selection.
#[derive(Debug, PartialEq, Eq)]
pub struct Candidate {
    pub side: ImpactSide,
    pub member_alias: String,
    pub fact: CallableFact,
    pub shard_ref: CasObject,
}

/// The model of a [`Candidate`].
pub struct CandidateModel {
    pub side: ImpactSide,
    pub member_alias: Seq<char>,
    pub fact: CallableFactModel,
    pub shard_ref: CasObjectModel,
}

impl DeepView for Candidate {
    type V = CandidateModel;

    open spec fn deep_view(&self) -> CandidateModel {
        CandidateModel {
            side: self.side.deep_view(),
            member_alias: self.member_alias.deep_view(),
            fact: self.fact.deep_view(),
            shard_ref: self.shard_ref.deep_view(),
        }
    }
}

impl Record for Candidate {
    open spec fn json(v: CandidateModel) -> JsonModel {
        JsonModel::object()
            .with("side"@, <ImpactSide as Record>::json(v.side))
            .with("memberAlias"@, <String as Record>::json(v.member_alias))
            .with("fact"@, <CallableFact as Record>::json(v.fact))
            .with("shardRef"@, <CasObject as Record>::json(v.shard_ref))
    }

    fn copied(&self) -> (r: Candidate) {
        Candidate {
            side: self.side.copied(),
            member_alias: self.member_alias.copied(),
            fact: self.fact.copied(),
            shard_ref: self.shard_ref.copied(),
        }
    }

    fn same_as(&self, other: &Candidate) -> (r: bool) {
        self.side.same_as(&other.side)
            && self.member_alias.same_as(&other.member_alias)
            && self.fact.same_as(&other.fact)
            && self.shard_ref.same_as(&other.shard_ref)
    }

    fn to_json(&self) -> (r: Json) {
        Json::object()
            .with("side", self.side.to_json())
            .with("memberAlias", self.member_alias.to_json())
            .with("fact", self.fact.to_json())
            .with("shardRef", self.shard_ref.to_json())
    }
}

/// A place in the sources, with the side and the member it belongs to.
#[derive(Debug, PartialEq, Eq)]
pub struct WindowAnchor {
    pub side: ImpactSide,
    pub member_alias: String,
    pub anchor: SourceAnchor,
}

/// The model of a [`WindowAnchor`].
pub struct WindowAnchorModel {
    pub side: ImpactSide,
    pub member_alias: Seq<char>,
    pub anchor: SourceAnchorModel,
}

impl DeepView for WindowAnchor {
    type V = WindowAnchorModel;

    open spec fn deep_view(&self) -> WindowAnchorModel {
        WindowAnchorModel {
            side: self.side.deep_view(),
            member_alias: self.member_alias.deep_view(),
            anchor: self.anchor.deep_view(),
        }
    }
}

impl Record for WindowAnchor {
    open spec fn json(v: WindowAnchorModel) -> JsonModel {
        JsonModel::object()
            .with("side"@, <ImpactSide as Record>::json(v.side))
            .with("memberAlias"@, <String as Record>::json(v.member_alias))
            .with("anchor"@, <SourceAnchor as Record>::json(v.anchor))
    }

    fn copied(&self) -> (r: WindowAnchor) {
        WindowAnchor {
            side: self.side.copied(),
            member_alias: self.member_alias.copied(),
            anchor: self.anchor.copied(),
        }
    }

    fn same_as(&self, other: &WindowAnchor) -> (r: bool) {
        self.side.same_as(&other.side)
            && self.member_alias.same_as(&other.member_alias)
            && self.anchor.same_as(&other.anchor)
    }

    fn to_json(&self) -> (r: Json) {
        Json::object()
            .with("side", self.side.to_json())
            .with("memberAlias", self.member_alias.to_json())
            .with("anchor", self.anchor.to_json())
    }
}

impl Keyed for Candidate {
    open spec fn key(v: CandidateModel) -> Seq<char> {
        v.fact.fact_id()
    }

    fn key_text(&self) -> (r: &String) {
        self.fact.fact_id()
    }
}

impl Ordered for Candidate {
    open spec fn parts(v: CandidateModel) -> Seq<PartModel> {
        seq![
            PartModel::Num(v.side.rank()),
            PartModel::Num(v.fact.kind().rank()),
            PartModel::Text(v.fact.fact_id()),
        ]
    }

    fn to_parts(&self) -> (r: Vec<Part>) {
        let r = vec![
            Part::Num(self.side.to_rank()),
            Part::Num(self.fact.kind().to_rank()),
            Part::Text(self.fact.fact_id().clone()),
        ];
        assert(r.deep_view() =~= Self::parts(self.deep_view()));
        r
    }
}

impl Ordered for ImpactObligation {
    open spec fn parts(v: ImpactObligationModel) -> Seq<PartModel> {
        seq![
            PartModel::Num(v.code.rank()),
            text_part(v.member_alias),
            text_part(v.fact_id),
            text_part(v.required_check),
        ]
    }

    fn to_parts(&self) -> (r: Vec<Part>) {
        let r = vec![
            Part::Num(self.code.to_rank()),
            optional_text(&self.member_alias),
            optional_text(&self.fact_id),
            optional_text(&self.required_check),
        ];
        assert(r.deep_view() =~= Self::parts(self.deep_view()));
        r
    }
}

impl Ordered for WindowAnchor {
    open spec fn parts(v: WindowAnchorModel) -> Seq<PartModel> {
        seq![
            PartModel::Num(v.side.rank()),
            PartModel::Text(v.member_alias),
            PartModel::Text(v.anchor.path),
            num_part(v.anchor.start),
            num_part(v.anchor.end),
            PartModel::Text(v.anchor.content_ref.digest),
        ]
    }

    fn to_parts(&self) -> (r: Vec<Part>) {
        let r = vec![
            Part::Num(self.side.to_rank()),
            Part::Text(self.member_alias.clone()),
            Part::Text(self.anchor.path.clone()),
            optional_num(&self.anchor.start),
            optional_num(&self.anchor.end),
            Part::Text(self.anchor.content_ref.digest.clone()),
        ];
        assert(r.deep_view() =~= Self::parts(self.deep_view()));
        r
    }
}

/// The frozen budgets.
pub open spec fn frozen_budgets() -> ImpactBudgetsModel {
    ImpactBudgetsModel {
        max_findings: MAX_IMPACT_FINDINGS,
        max_obligations: MAX_IMPACT_OBLIGATIONS,
        max_source_windows: MAX_IMPACT_SOURCE_WINDOWS,
        max_source_window_bytes: MAX_IMPACT_SOURCE_WINDOW_BYTES,
        max_derived_cas_objects: MAX_IMPACT_DERIVED_CAS_OBJECTS,
        max_retained_closure_bytes: MAX_IMPACT_RETAINED_CLOSURE_BYTES,
        max_stdout_bytes: MAX_IMPACT_STDOUT_BYTES,
    }
}

impl ImpactBudgets {
    /// The frozen budgets.
    pub fn frozen() -> (r: ImpactBudgets)
        ensures
            r.deep_view() == frozen_budgets(),
    {
        ImpactBudgets {
            max_findings: MAX_IMPACT_FINDINGS,
            max_obligations: MAX_IMPACT_OBLIGATIONS,
            max_source_windows: MAX_IMPACT_SOURCE_WINDOWS,
            max_source_window_bytes: MAX_IMPACT_SOURCE_WINDOW_BYTES,
            max_derived_cas_objects: MAX_IMPACT_DERIVED_CAS_OBJECTS,
            max_retained_closure_bytes: MAX_IMPACT_RETAINED_CLOSURE_BYTES,
            max_stdout_bytes: MAX_IMPACT_STDOUT_BYTES,
        }
    }

    /// Accepts the frozen budgets and no others.
    pub fn validate(&self) -> (r: Result<(), ClewError>)
        ensures
            outcome(r) == (if self.deep_view() == frozen_budgets() {
                Ok(())
            } else {
                refused("Kotlin impact budgets differ from the frozen profile"@)
            }),
    {
        if !self.same_as(&ImpactBudgets::frozen()) {
            return Err(invalid("Kotlin impact budgets differ from the frozen profile"));
        }
        Ok(())
    }
}

impl Default for ImpactBudgets {
    fn default() -> (r: ImpactBudgets)
        ensures
            r.deep_view() == frozen_budgets(),
    {
        ImpactBudgets::frozen()
    }
}

impl KotlinImpactSubjectModel {
    /// The kind of the subject.
    pub open spec fn kind(self) -> ImpactSubjectKind {
        match self {
            KotlinImpactSubjectModel::FullSymbol { .. } => ImpactSubjectKind::FullSymbol,
            KotlinImpactSubjectModel::CallableFamily { .. } => ImpactSubjectKind::CallableFamily,
            KotlinImpactSubjectModel::Token { .. } => ImpactSubjectKind::Token,
        }
    }
}

impl KotlinImpactSubject {
    /// The kind of the subject.
    pub fn kind(&self) -> (r: ImpactSubjectKind)
        ensures
            r == self.deep_view().kind(),
    {
        match self {
            KotlinImpactSubject::FullSymbol { .. } => ImpactSubjectKind::FullSymbol,
            KotlinImpactSubject::CallableFamily { .. } => ImpactSubjectKind::CallableFamily,
            KotlinImpactSubject::Token { .. } => ImpactSubjectKind::Token,
        }
    }
}

/// Whether a character is a letter or a digit, as std decides it.
pub uninterp spec fn is_alphanumeric_char(c: char) -> bool;

/// The characters that a character becomes in lower case, as std has them.
pub uninterp spec fn lower_case_of(c: char) -> Seq<char>;

/// Calls `char::is_alphanumeric`. The contract claims that the answer depends on
/// the character alone.
#[verifier::external_body]
fn alphanumeric(c: char) -> (r: bool)
    ensures
        r == is_alphanumeric_char(c),
{
    c.is_alphanumeric()
}

/// Calls `char::to_lowercase`. The contract claims that the characters that come
/// out depend on the character alone.
#[verifier::external_body]
fn lower_case(c: char) -> (r: Vec<char>)
    ensures
        r@ == lower_case_of(c),
{
    c.to_lowercase().collect()
}

/// Whether every character is a letter, a digit or an underscore.
pub open spec fn is_identifier_token(s: Seq<char>) -> bool {
    forall|i: int| 0 <= i < s.len() ==> is_alphanumeric_char(#[trigger] s[i]) || s[i] == '_'
}

/// The first `n` characters of a text in lower case.
pub open spec fn lowered(s: Seq<char>, n: nat) -> Seq<char>
    decreases n,
{
    if n == 0 || n > s.len() {
        Seq::empty()
    } else {
        lowered(s, (n - 1) as nat) + lower_case_of(s[n - 1])
    }
}

fn identifier_token(v: &Vec<char>) -> (r: bool)
    ensures
        r == is_identifier_token(v@),
{
    let mut i: usize = 0;
    while i < v.len()
        invariant
            i <= v.len(),
            forall|k: int| 0 <= k < i ==> is_alphanumeric_char(#[trigger] v@[k]) || v@[k] == '_',
        decreases v.len() - i,
    {
        if !alphanumeric(v[i]) && v[i] != '_' {
            return false;
        }
        i = i + 1;
    }
    true
}

fn lower(v: &Vec<char>) -> (r: String)
    ensures
        r@ == lowered(v@, v@.len()),
{
    let mut chars: Vec<char> = Vec::new();
    let mut i: usize = 0;
    while i < v.len()
        invariant
            i <= v.len(),
            chars@ == lowered(v@, i as nat),
        decreases v.len() - i,
    {
        let mut next = lower_case(v[i]);
        chars.append(&mut next);
        i = i + 1;
    }
    text_of(chars.as_slice())
}

/// The outcome for a text that must be plain.
pub open spec fn text_checked(s: Seq<char>, label: Seq<char>, max: usize) -> Result<(), ErrorModel> {
    if is_plain(s, max) {
        Ok(())
    } else {
        refused(label + " is empty or invalid"@)
    }
}

fn validate_text(value: &str, label: &str, max_bytes: usize) -> (r: Result<(), ClewError>)
    ensures
        outcome(r) == text_checked(value@, label@, max_bytes),
{
    if plain(value, max_bytes) {
        Ok(())
    } else {
        Err(invalid(joined(label, " is empty or invalid").as_str()))
    }
}

/// Whether a character may stand in a segment of a callable identity.
pub open spec fn is_segment_char(c: char) -> bool {
    ('a' <= c && c <= 'z') || ('A' <= c && c <= 'Z') || ('0' <= c && c <= '9') || c == '_' || c == '$'
}

/// Whether a text is a segment of a callable identity.
pub open spec fn is_segment(s: Seq<char>) -> bool {
    s == "<init>"@ || (s.len() > 0 && forall|i: int|
        0 <= i < s.len() ==> is_segment_char(#[trigger] s[i]))
}

/// A text with each dot turned into a slash.
pub open spec fn slashed(s: Seq<char>) -> Seq<char> {
    Seq::new(
        s.len(),
        |i: int|
            if s[i] == '.' {
                '/'
            } else {
                s[i]
            },
    )
}

/// Whether a text is a callable identity as the compiler writes it: segments, at
/// least two, divided by slashes and dots.
pub open spec fn is_raw_callable_id(s: Seq<char>) -> bool {
    let segments = pieces(slashed(s), '/');
    segments.len() > 1 && forall|i: int|
        0 <= i < segments.len() ==> is_segment(#[trigger] segments[i])
}

fn segment(s: &str) -> (r: bool)
    ensures
        r == is_segment(s@),
{
    if same_text(s, "<init>") {
        return true;
    }
    let chars = chars_of(s);
    if chars.len() == 0 {
        return false;
    }
    let mut i: usize = 0;
    while i < chars.len()
        invariant
            i <= chars.len(),
            chars@ == s@,
            s@ != "<init>"@,
            s@.len() > 0,
            forall|k: int| 0 <= k < i ==> is_segment_char(#[trigger] s@[k]),
        decreases chars.len() - i,
    {
        let c = chars[i];
        if !(('a' <= c && c <= 'z') || ('A' <= c && c <= 'Z') || ('0' <= c && c <= '9') || c == '_'
            || c == '$') {
            assert(!is_segment_char(s@[i as int]));
            return false;
        }
        i = i + 1;
    }
    true
}

fn raw_callable_id(value: &str) -> (r: bool)
    ensures
        r == is_raw_callable_id(value@),
{
    let chars = chars_of(value);
    let mut slashes: Vec<char> = Vec::new();
    let mut i: usize = 0;
    while i < chars.len()
        invariant
            i <= chars.len(),
            chars@ == value@,
            slashes@ == slashed(value@).take(i as int),
        decreases chars.len() - i,
    {
        let c = chars[i];
        slashes.push(
            if c == '.' {
                '/'
            } else {
                c
            },
        );
        assert(slashed(value@).take(i + 1) =~= slashed(value@).take(i as int).push(
            slashed(value@)[i as int],
        ));
        i = i + 1;
    }
    assert(slashed(value@).take(chars@.len() as int) =~= slashed(value@));
    let segments = split(text_of(slashes.as_slice()).as_str(), '/');
    if segments.len() <= 1 {
        return false;
    }
    let ghost m = segments.deep_view();
    let mut k: usize = 0;
    while k < segments.len()
        invariant
            k <= segments.len(),
            m == segments.deep_view(),
            m == pieces(slashed(value@), '/'),
            m.len() > 1,
            forall|j: int| 0 <= j < k ==> is_segment(#[trigger] m[j]),
        decreases segments.len() - k,
    {
        assert(m[k as int] == segments@[k as int]@);
        if !segment(segments[k].as_str()) {
            return false;
        }
        k = k + 1;
    }
    true
}

/// The pairs with an identity.
pub open spec fn pairs_with(pairs: Seq<CallablePairBindingModel>, pair_id: Seq<char>) -> Seq<
    CallablePairBindingModel,
> {
    pairs.filter(|p: CallablePairBindingModel| p.pair_id == pair_id)
}

/// The one pair with an identity.
pub open spec fn pair_selected(set: PreparedCallableFactSetModel, pair_id: Seq<char>) -> Result<
    CallablePairBindingModel,
    ErrorModel,
> {
    let found = pairs_with(set.authority.pairs, pair_id);
    if found.len() == 0 {
        refused("selected Kotlin impact pair does not exist"@)
    } else if found.len() > 1 {
        corrupted("verified callable fact set repeats a pair id"@)
    } else {
        Ok(found[0])
    }
}

fn selected_pair(prepared: &PreparedCallableFactSet, pair_id: &str) -> (r: Result<
    CallablePairBinding,
    ClewError,
>)
    ensures
        outcome(r) == pair_selected(prepared.deep_view(), pair_id@),
{
    let pairs = &prepared.authority.pairs;
    let ghost m = pairs.deep_view();
    let ghost wanted = |p: CallablePairBindingModel| p.pair_id == pair_id@;
    let mut found: Vec<CallablePairBinding> = Vec::new();
    let mut i: usize = 0;
    proof {
        reveal(Seq::filter);
        assert(found.deep_view() =~= m.take(0).filter(wanted));
    }
    while i < pairs.len()
        invariant
            i <= pairs.len(),
            m == pairs.deep_view(),
            wanted == (|p: CallablePairBindingModel| p.pair_id == pair_id@),
            found.deep_view() == m.take(i as int).filter(wanted),
        decreases pairs.len() - i,
    {
        let ghost before = found.deep_view();
        proof {
            reveal(Seq::filter);
            assert(m[i as int] == pairs@[i as int].deep_view());
            assert(m.take(i + 1).drop_last() =~= m.take(i as int));
        }
        if same_text(pairs[i].pair_id.as_str(), pair_id) {
            found.push(pairs[i].copied());
            assert(found.deep_view() =~= before.push(m[i as int]));
        }
        i = i + 1;
    }
    assert(m.take(m.len() as int) =~= m);
    if found.len() > 1 {
        return Err(corrupt("verified callable fact set repeats a pair id"));
    }
    match found.pop() {
        Some(pair) => Ok(pair),
        None => Err(invalid("selected Kotlin impact pair does not exist")),
    }
}

/// The members with an alias.
pub open spec fn members_with(members: Seq<CallableMemberBindingModel>, alias: Seq<char>) -> Seq<
    CallableMemberBindingModel,
> {
    members.filter(|m: CallableMemberBindingModel| m.member_alias == alias)
}

/// The one member with an alias.
pub open spec fn member_selected(set: PreparedCallableFactSetModel, alias: Seq<char>) -> Result<
    CallableMemberBindingModel,
    ErrorModel,
> {
    let found = members_with(set.authority.members, alias);
    if found.len() == 0 {
        corrupted("callable pair references a missing member"@)
    } else if found.len() > 1 {
        corrupted("verified callable fact set repeats a member alias"@)
    } else {
        Ok(found[0])
    }
}

fn selected_member(prepared: &PreparedCallableFactSet, alias: &str) -> (r: Result<
    CallableMemberBinding,
    ClewError,
>)
    ensures
        outcome(r) == member_selected(prepared.deep_view(), alias@),
{
    let members = &prepared.authority.members;
    let ghost m = members.deep_view();
    let ghost wanted = |x: CallableMemberBindingModel| x.member_alias == alias@;
    let mut found: Vec<CallableMemberBinding> = Vec::new();
    let mut i: usize = 0;
    proof {
        reveal(Seq::filter);
        assert(found.deep_view() =~= m.take(0).filter(wanted));
    }
    while i < members.len()
        invariant
            i <= members.len(),
            m == members.deep_view(),
            wanted == (|x: CallableMemberBindingModel| x.member_alias == alias@),
            found.deep_view() == m.take(i as int).filter(wanted),
        decreases members.len() - i,
    {
        let ghost before = found.deep_view();
        proof {
            reveal(Seq::filter);
            assert(m[i as int] == members@[i as int].deep_view());
            assert(m.take(i + 1).drop_last() =~= m.take(i as int));
        }
        if same_text(members[i].member_alias.as_str(), alias) {
            found.push(members[i].copied());
            assert(found.deep_view() =~= before.push(m[i as int]));
        }
        i = i + 1;
    }
    assert(m.take(m.len() as int) =~= m);
    if found.len() > 1 {
        return Err(corrupt("verified callable fact set repeats a member alias"));
    }
    match found.pop() {
        Some(member) => Ok(member),
        None => Err(corrupt("callable pair references a missing member")),
    }
}

/// The two members of a pair: the provider and the consumer.
pub open spec fn members_of_pair(
    set: PreparedCallableFactSetModel,
    pair: CallablePairBindingModel,
) -> Result<(CallableMemberBindingModel, CallableMemberBindingModel), ErrorModel> {
    match member_selected(set, pair.provider_member) {
        Err(e) => Err(e),
        Ok(provider) => match member_selected(set, pair.consumer_member) {
            Err(e) => Err(e),
            Ok(consumer) => Ok((provider, consumer)),
        },
    }
}

fn pair_members(prepared: &PreparedCallableFactSet, pair: &CallablePairBinding) -> (r: Result<
    (CallableMemberBinding, CallableMemberBinding),
    ClewError,
>)
    ensures
        match members_of_pair(prepared.deep_view(), pair.deep_view()) {
            Ok(m) => r is Ok && r->Ok_0.0.deep_view() == m.0 && r->Ok_0.1.deep_view() == m.1,
            Err(e) => r is Err && r->Err_0.deep_view() == e,
        },
{
    let provider = selected_member(prepared, pair.provider_member.as_str())?;
    let consumer = selected_member(prepared, pair.consumer_member.as_str())?;
    Ok((provider, consumer))
}

/// A subject in the form in which it is looked up, within a pair.
pub open spec fn subject_normalized(
    pair: CallablePairBindingModel,
    subject: KotlinImpactSubjectModel,
) -> Result<KotlinImpactSubjectModel, ErrorModel> {
    match subject {
        KotlinImpactSubjectModel::FullSymbol { symbol_identity, member_alias } => match text_checked(
            symbol_identity,
            "impact full symbol"@,
            4_096,
        ) {
            Err(e) => Err(e),
            Ok(_) => if !is_full_symbol(symbol_identity) {
                refused("impact FULL_SYMBOL subject is not a compiler full symbol identity"@)
            } else {
                match member_alias {
                    None => refused(
                        "impact FULL_SYMBOL subject requires an explicit pair member"@,
                    ),
                    Some(alias) => match text_checked(alias, "impact member alias"@, 4_096) {
                        Err(e) => Err(e),
                        Ok(_) => if alias != pair.provider_member && alias
                            != pair.consumer_member {
                            refused("impact FULL_SYMBOL member is not part of the selected pair"@)
                        } else {
                            Ok(subject)
                        },
                    },
                }
            },
        },
        KotlinImpactSubjectModel::CallableFamily { callable_id } => match text_checked(
            callable_id,
            "impact CallableId family"@,
            4_096,
        ) {
            Err(e) => Err(e),
            Ok(_) => if !is_raw_callable_id(callable_id) {
                refused("impact CallableId family does not match the closed raw grammar"@)
            } else {
                Ok(subject)
            },
        },
        KotlinImpactSubjectModel::Token { term } => match text_checked(term, "impact token"@, 256) {
            Err(e) => Err(e),
            Ok(_) => if !is_identifier_token(term) {
                refused("impact token must be one identifier token"@)
            } else {
                let lower = lowered(term, term.len());
                if vstd::utf8::encode_utf8(lower).len() < 2 || nfc_of(lower) != lower {
                    refused("impact token must contain at least two bytes"@)
                } else {
                    Ok(KotlinImpactSubjectModel::Token { term: lower })
                }
            },
        },
    }
}

fn normalize_subject(pair: &CallablePairBinding, subject: &KotlinImpactSubject) -> (r: Result<
    KotlinImpactSubject,
    ClewError,
>)
    ensures
        outcome(r) == subject_normalized(pair.deep_view(), subject.deep_view()),
{
    match subject {
        KotlinImpactSubject::FullSymbol { symbol_identity, member_alias } => {
            validate_text(symbol_identity.as_str(), "impact full symbol", 4_096)?;
            if validate_kotlin_full_symbol_identity(symbol_identity.as_str()).is_err() {
                return Err(
                    invalid("impact FULL_SYMBOL subject is not a compiler full symbol identity"),
                );
            }
            match member_alias {
                None => Err(invalid("impact FULL_SYMBOL subject requires an explicit pair member")),
                Some(alias) => {
                    validate_text(alias.as_str(), "impact member alias", 4_096)?;
                    if !same_text(alias.as_str(), pair.provider_member.as_str()) && !same_text(
                        alias.as_str(),
                        pair.consumer_member.as_str(),
                    ) {
                        return Err(
                            invalid("impact FULL_SYMBOL member is not part of the selected pair"),
                        );
                    }
                    Ok(subject.copied())
                },
            }
        },
        KotlinImpactSubject::CallableFamily { callable_id } => {
            validate_text(callable_id.as_str(), "impact CallableId family", 4_096)?;
            if !raw_callable_id(callable_id.as_str()) {
                return Err(
                    invalid("impact CallableId family does not match the closed raw grammar"),
                );
            }
            Ok(subject.copied())
        },
        KotlinImpactSubject::Token { term } => {
            validate_text(term.as_str(), "impact token", 256)?;
            let chars = chars_of(term.as_str());
            if !identifier_token(&chars) {
                return Err(invalid("impact token must be one identifier token"));
            }
            let lower_term = lower(&chars);
            if crate::text::byte_len(lower_term.as_str()) < 2 || !is_nfc(lower_term.as_str()) {
                return Err(invalid("impact token must contain at least two bytes"));
            }
            Ok(KotlinImpactSubject::Token { term: lower_term })
        },
    }
}

/// A request in the form in which it is answered.
pub open spec fn request_normalized(
    set: PreparedCallableFactSetModel,
    request: ThreadImpactRequestModel,
) -> Result<ThreadImpactRequestModel, ErrorModel> {
    if request.budgets != frozen_budgets() {
        refused("Kotlin impact budgets differ from the frozen profile"@)
    } else if request.fact_set_authority_digest != set.authority.authority_digest {
        refused("Kotlin impact request is bound to a different callable fact set"@)
    } else {
        match text_checked(request.pair_id, "impact pair id"@, 4_096) {
            Err(e) => Err(e),
            Ok(_) => match pair_selected(set, request.pair_id) {
                Err(e) => Err(e),
                Ok(pair) => match subject_normalized(pair, request.subject) {
                    Err(e) => Err(e),
                    Ok(subject) => Ok(ThreadImpactRequestModel { subject, ..request }),
                },
            },
        }
    }
}

fn normalize_request(prepared: &PreparedCallableFactSet, request: &ThreadImpactRequest) -> (r:
    Result<ThreadImpactRequest, ClewError>)
    ensures
        outcome(r) == request_normalized(prepared.deep_view(), request.deep_view()),
{
    request.budgets.validate()?;
    if !same_text(
        request.fact_set_authority_digest.as_str(),
        prepared.authority.authority_digest.as_str(),
    ) {
        return Err(invalid("Kotlin impact request is bound to a different callable fact set"));
    }
    validate_text(request.pair_id.as_str(), "impact pair id", 4_096)?;
    let pair = selected_pair(prepared, request.pair_id.as_str())?;
    let subject = normalize_subject(&pair, &request.subject)?;
    Ok(
        ThreadImpactRequest {
            fact_set_authority_digest: request.fact_set_authority_digest.clone(),
            pair_id: request.pair_id.clone(),
            subject,
            budgets: request.budgets.copied(),
        },
    )
}

/// A normalized request is its own normal form, unless it is for a token: a
/// token's lower case is not claimed to be its own lower case.
pub proof fn normalization_is_idempotent(
    set: PreparedCallableFactSetModel,
    request: ThreadImpactRequestModel,
    normal: ThreadImpactRequestModel,
)
    requires
        request_normalized(set, request) == Ok::<ThreadImpactRequestModel, ErrorModel>(normal),
        !(request.subject is Token),
    ensures
        normal == request,
        request_normalized(set, normal) == Ok::<ThreadImpactRequestModel, ErrorModel>(normal),
{
}

/// The facts of the first `n` shards, each with the reference that the authority
/// has for its shard.
pub open spec fn entries_of(set: PreparedCallableFactSetModel, n: nat) -> Result<
    Seq<FactEntryModel>,
    ErrorModel,
>
    decreases n,
{
    if n == 0 || n > set.fact_shards.len() || n > set.authority.fact_shards.len() {
        Ok(Seq::empty())
    } else {
        match entries_of(set, (n - 1) as nat) {
            Err(e) => Err(e),
            Ok(before) => match set.fact_shards[n - 1].shard {
                None => corrupted("verified callable fact shard cannot be decoded"@),
                Some(shard) => Ok(
                    before + Seq::new(
                        shard.facts.len(),
                        |i: int|
                            FactEntryModel {
                                fact: shard.facts[i],
                                shard_ref: set.authority.fact_shards[n - 1],
                            },
                    ),
                ),
            },
        }
    }
}

/// The number of shards that a fact set and its authority both have.
pub open spec fn shard_count(set: PreparedCallableFactSetModel) -> nat {
    if set.fact_shards.len() < set.authority.fact_shards.len() {
        set.fact_shards.len()
    } else {
        set.authority.fact_shards.len()
    }
}

/// The facts of a fact set, in the order of the shards.
pub open spec fn entries_read(set: PreparedCallableFactSetModel) -> Result<
    Seq<FactEntryModel>,
    ErrorModel,
> {
    entries_of(set, shard_count(set))
}

proof fn failed_entries_fail_all(set: PreparedCallableFactSetModel, i: nat, n: nat)
    requires
        i <= n <= shard_count(set),
        entries_of(set, i) is Err,
    ensures
        entries_of(set, n) == entries_of(set, i),
    decreases n,
{
    if i < n {
        failed_entries_fail_all(set, i, (n - 1) as nat);
    }
}

fn entries_of_shard(
    facts: &Vec<CallableFact>,
    reference: &CasObject,
    entries: &mut Vec<FactEntry>,
)
    ensures
        final(entries).deep_view() == old(entries).deep_view() + Seq::new(
            facts@.len(),
            |i: int|
                FactEntryModel { fact: facts.deep_view()[i], shard_ref: reference.deep_view() },
        ),
{
    let ghost start = entries.deep_view();
    let ghost added = Seq::new(
        facts@.len(),
        |i: int| FactEntryModel { fact: facts.deep_view()[i], shard_ref: reference.deep_view() },
    );
    let mut i: usize = 0;
    assert(entries.deep_view() =~= start + added.take(0));
    while i < facts.len()
        invariant
            i <= facts.len(),
            added == Seq::new(
                facts@.len(),
                |i: int|
                    FactEntryModel { fact: facts.deep_view()[i], shard_ref: reference.deep_view() },
            ),
            entries.deep_view() == start + added.take(i as int),
        decreases facts.len() - i,
    {
        let ghost before = entries.deep_view();
        entries.push(FactEntry { fact: facts[i].copied(), shard_ref: reference.copied() });
        proof {
            assert(facts.deep_view()[i as int] == facts@[i as int].deep_view());
            assert(entries.deep_view() =~= before.push(added[i as int]));
            assert(added.take(i + 1) =~= added.take(i as int).push(added[i as int]));
            assert(start + added.take(i + 1) =~= (start + added.take(i as int)).push(
                added[i as int],
            ));
        }
        i = i + 1;
    }
    assert(added.take(facts@.len() as int) =~= added);
}

/// Reads the facts of a fact set.
pub fn fact_entries(prepared: &PreparedCallableFactSet) -> (r: Result<Vec<FactEntry>, ClewError>)
    ensures
        outcome(r) == entries_read(prepared.deep_view()),
{
    let ghost set = prepared.deep_view();
    let mut entries: Vec<FactEntry> = Vec::new();
    let mut i: usize = 0;
    assert(entries.deep_view() =~= Seq::empty());
    while i < prepared.fact_shards.len() && i < prepared.authority.fact_shards.len()
        invariant
            set == prepared.deep_view(),
            i <= shard_count(set),
            entries_of(set, i as nat) == Ok::<Seq<FactEntryModel>, ErrorModel>(entries.deep_view()),
        decreases prepared.fact_shards.len() - i,
    {
        let ghost next = (i + 1) as nat;
        assert(set.fact_shards[i as int] == prepared.fact_shards@[i as int].deep_view());
        assert(set.authority.fact_shards[i as int]
            == prepared.authority.fact_shards@[i as int].deep_view());
        match &prepared.fact_shards[i].shard {
            None => {
                proof {
                    assert(entries_of(set, next) is Err);
                    failed_entries_fail_all(set, next, shard_count(set));
                }
                return Err(corrupt("verified callable fact shard cannot be decoded"));
            },
            Some(shard) => {
                let ghost before = entries.deep_view();
                entries_of_shard(&shard.facts, &prepared.authority.fact_shards[i], &mut entries);
                proof {
                    let m = shard.deep_view();
                    assert(entries.deep_view() =~= before + Seq::new(
                        m.facts.len(),
                        |k: int|
                            FactEntryModel {
                                fact: m.facts[k],
                                shard_ref: set.authority.fact_shards[next - 1],
                            },
                    ));
                }
            },
        }
        i = i + 1;
    }
    Ok(entries)
}

/// What is looked up for a subject.
pub open spec fn lookup_of(
    subject: KotlinImpactSubjectModel,
    provider: CallableMemberBindingModel,
    consumer: CallableMemberBindingModel,
) -> Result<CallableLookupModel, ErrorModel> {
    match subject {
        KotlinImpactSubjectModel::FullSymbol { symbol_identity, member_alias } => match member_alias {
            Some(alias) => if provider.member_alias == alias {
                Ok(
                    CallableLookupModel::FullSymbol {
                        repository_namespace: provider.repository_namespace,
                        symbol_identity,
                    },
                )
            } else if consumer.member_alias == alias {
                Ok(
                    CallableLookupModel::FullSymbol {
                        repository_namespace: consumer.repository_namespace,
                        symbol_identity,
                    },
                )
            } else {
                refused("full-symbol member is not in the selected pair"@)
            },
            None => refused("FULL_SYMBOL impact subject requires an explicit pair member"@),
        },
        KotlinImpactSubjectModel::CallableFamily { callable_id } => Ok(
            CallableLookupModel::CallableFamily { repository_namespace: None, callable_id },
        ),
        KotlinImpactSubjectModel::Token { term } => Ok(CallableLookupModel::Token { term }),
    }
}

fn subject_lookup(
    subject: &KotlinImpactSubject,
    provider: &CallableMemberBinding,
    consumer: &CallableMemberBinding,
) -> (r: Result<CallableLookup, ClewError>)
    ensures
        outcome(r) == lookup_of(subject.deep_view(), provider.deep_view(), consumer.deep_view()),
{
    match subject {
        KotlinImpactSubject::FullSymbol { symbol_identity, member_alias } => match member_alias {
            Some(alias) => {
                let member = if same_text(provider.member_alias.as_str(), alias.as_str()) {
                    provider
                } else if same_text(consumer.member_alias.as_str(), alias.as_str()) {
                    consumer
                } else {
                    return Err(invalid("full-symbol member is not in the selected pair"));
                };
                Ok(
                    CallableLookup::FullSymbol {
                        repository_namespace: member.repository_namespace.clone(),
                        symbol_identity: symbol_identity.clone(),
                    },
                )
            },
            None => Err(invalid("FULL_SYMBOL impact subject requires an explicit pair member")),
        },
        KotlinImpactSubject::CallableFamily { callable_id } => {
            let repository_namespace: Option<String> = None;
            Ok(
                CallableLookup::CallableFamily {
                    repository_namespace,
                    callable_id: callable_id.clone(),
                },
            )
        },
        KotlinImpactSubject::Token { term } => Ok(CallableLookup::Token { term: term.clone() }),
    }
}

/// What an impact rests on, before the facts are queried.
pub struct ImpactScope {
    pub pair: CallablePairBindingModel,
    pub provider: CallableMemberBindingModel,
    pub consumer: CallableMemberBindingModel,
    pub entries: Seq<FactEntryModel>,
    pub lookup: CallableLookupModel,
}

/// What the impact of a normalized request rests on.
pub open spec fn scoped(
    set: PreparedCallableFactSetModel,
    request: ThreadImpactRequestModel,
) -> Result<ImpactScope, ErrorModel> {
    match pair_selected(set, request.pair_id) {
        Err(e) => Err(e),
        Ok(pair) => match members_of_pair(set, pair) {
            Err(e) => Err(e),
            Ok((provider, consumer)) => match entries_read(set) {
                Err(e) => Err(e),
                Ok(entries) => match lookup_of(request.subject, provider, consumer) {
                    Err(e) => Err(e),
                    Ok(lookup) => Ok(ImpactScope { pair, provider, consumer, entries, lookup }),
                },
            },
        },
    }
}

/// The query that an impact makes of its fact set.
pub open spec fn query_planned(
    set: PreparedCallableFactSetModel,
    request: ThreadImpactRequestModel,
) -> Result<CallableQueryRequestModel, ErrorModel> {
    match request_normalized(set, request) {
        Err(e) => Err(e),
        Ok(normal) => match scoped(set, normal) {
            Err(e) => Err(e),
            Ok(scope) => Ok(
                CallableQueryRequestModel {
                    lookups: seq![scope.lookup],
                    max_results: MAX_IMPACT_FINDINGS,
                },
            ),
        },
    }
}

/// The query of the fact set whose answer [`select`] and [`build`] need.
pub fn plan_query(prepared: &PreparedCallableFactSet, request: &ThreadImpactRequest) -> (r: Result<
    CallableQueryRequest,
    ClewError,
>)
    ensures
        outcome(r) == query_planned(prepared.deep_view(), request.deep_view()),
{
    let normal = normalize_request(prepared, request)?;
    let pair = selected_pair(prepared, normal.pair_id.as_str())?;
    let (provider, consumer) = pair_members(prepared, &pair)?;
    let _ = fact_entries(prepared)?;
    let lookup = subject_lookup(&normal.subject, &provider, &consumer)?;
    let lookups = vec![lookup];
    assert(lookups.deep_view() =~= seq![lookup.deep_view()]);
    Ok(CallableQueryRequest { lookups, max_results: MAX_IMPACT_FINDINGS })
}

/// Whether a declaration is named by a text: its symbol, what the compiler calls
/// it, its owner, or one of the owners around it.
pub open spec fn is_named(declaration: DeclarationFactModel, subject: Seq<char>) -> bool {
    subject == declaration.symbol_identity || declaration.compiler_callable_id == Some(subject)
        || declaration.compiler_class_id == Some(subject) || subject == declaration.owner_identity
        || has_key::<String>(declaration.containment, subject)
}

/// Whether an entry is a matched declaration of a member, in the compilation of a
/// boundary, that the subject of the boundary names.
pub open spec fn is_bounded_declaration(
    entry: FactEntryModel,
    alias: Seq<char>,
    matched: Seq<Seq<char>>,
    boundary: BoundaryFactModel,
) -> bool {
    match (entry.fact, boundary.subject) {
        (CallableFactModel::Declaration(row), Some(subject)) => row.provenance.member_alias == alias
            && has_key::<String>(matched, row.fact_id) && row.provenance.member_alias
            == boundary.provenance.member_alias && row.provenance.compilation_id
            == boundary.provenance.compilation_id && is_named(row, subject),
        _ => false,
    }
}

/// Whether a boundary of the descriptors concerns a matched declaration.
pub open spec fn boundary_related(
    entries: Seq<FactEntryModel>,
    alias: Seq<char>,
    matched: Seq<Seq<char>>,
    boundary: BoundaryFactModel,
) -> bool {
    has_prefix(boundary.provenance.input_fact_key, "kotlin:descriptor-boundary:"@) && exists|i: int|
        0 <= i < entries.len() && is_bounded_declaration(
            #[trigger] entries[i],
            alias,
            matched,
            boundary,
        )
}

/// Whether a fact of a member is about the subject.
pub open spec fn is_match(
    fact: CallableFactModel,
    subject: KotlinImpactSubjectModel,
    entries: Seq<FactEntryModel>,
    alias: Seq<char>,
    matched: Seq<Seq<char>>,
) -> bool {
    match (subject, fact) {
        (
            KotlinImpactSubjectModel::FullSymbol { symbol_identity, .. },
            CallableFactModel::Boundary(row),
        ) => row.subject == Some(symbol_identity) || boundary_related(entries, alias, matched, row),
        (
            KotlinImpactSubjectModel::CallableFamily { callable_id },
            CallableFactModel::Boundary(row),
        ) => row.subject == Some(callable_id) || (row.subject is Some && callable_family(
            row.subject.unwrap(),
        ) == Some(callable_id)) || boundary_related(entries, alias, matched, row),
        _ => has_key::<String>(matched, fact.fact_id()),
    }
}

fn same_optional(a: &Option<String>, b: &str) -> (r: bool)
    ensures
        r == (a.deep_view() == Some(b@)),
{
    match a {
        Some(s) => same_text(s.as_str(), b),
        None => false,
    }
}

fn bounded_declaration(
    entry: &FactEntry,
    alias: &str,
    matched: &Vec<String>,
    boundary: &BoundaryFact,
) -> (r: bool)
    ensures
        r == is_bounded_declaration(
            entry.deep_view(),
            alias@,
            matched.deep_view(),
            boundary.deep_view(),
        ),
{
    match (&entry.fact, &boundary.subject) {
        (CallableFact::Declaration(row), Some(subject)) => same_text(
            row.provenance.member_alias.as_str(),
            alias,
        ) && contains_key(matched, row.fact_id.as_str()) && same_text(
            row.provenance.member_alias.as_str(),
            boundary.provenance.member_alias.as_str(),
        ) && same_text(
            row.provenance.compilation_id.as_str(),
            boundary.provenance.compilation_id.as_str(),
        ) && (same_text(subject.as_str(), row.symbol_identity.as_str()) || same_optional(
            &row.compiler_callable_id,
            subject.as_str(),
        ) || same_optional(&row.compiler_class_id, subject.as_str()) || same_text(
            subject.as_str(),
            row.owner_identity.as_str(),
        ) || contains_key(&row.containment, subject.as_str())),
        _ => false,
    }
}

fn boundary_matches_declarations(
    entries: &Vec<FactEntry>,
    alias: &str,
    matched: &Vec<String>,
    boundary: &BoundaryFact,
) -> (r: bool)
    ensures
        r == boundary_related(
            entries.deep_view(),
            alias@,
            matched.deep_view(),
            boundary.deep_view(),
        ),
{
    if !starts_with(boundary.provenance.input_fact_key.as_str(), "kotlin:descriptor-boundary:") {
        return false;
    }
    let ghost m = entries.deep_view();
    let mut i: usize = 0;
    while i < entries.len()
        invariant
            i <= entries.len(),
            m == entries.deep_view(),
            has_prefix(
                boundary.deep_view().provenance.input_fact_key,
                "kotlin:descriptor-boundary:"@,
            ),
            forall|k: int|
                0 <= k < i ==> !is_bounded_declaration(
                    #[trigger] m[k],
                    alias@,
                    matched.deep_view(),
                    boundary.deep_view(),
                ),
        decreases entries.len() - i,
    {
        assert(m[i as int] == entries@[i as int].deep_view());
        if bounded_declaration(&entries[i], alias, matched, boundary) {
            return true;
        }
        i = i + 1;
    }
    false
}

fn fact_matches(
    fact: &CallableFact,
    subject: &KotlinImpactSubject,
    entries: &Vec<FactEntry>,
    alias: &str,
    matched: &Vec<String>,
) -> (r: bool)
    ensures
        r == is_match(
            fact.deep_view(),
            subject.deep_view(),
            entries.deep_view(),
            alias@,
            matched.deep_view(),
        ),
{
    match (subject, fact) {
        (
            KotlinImpactSubject::FullSymbol { symbol_identity, .. },
            CallableFact::Boundary(row),
        ) => same_optional(&row.subject, symbol_identity.as_str()) || boundary_matches_declarations(
            entries,
            alias,
            matched,
            row,
        ),
        (KotlinImpactSubject::CallableFamily { callable_id }, CallableFact::Boundary(row)) => {
            let named = match &row.subject {
                Some(text) => same_text(text.as_str(), callable_id.as_str()) || same_optional(
                    &symbol_callable_family(text.as_str()),
                    callable_id.as_str(),
                ),
                None => false,
            };
            named || boundary_matches_declarations(entries, alias, matched, row)
        },
        _ => contains_key(matched, fact.fact_id().as_str()),
    }
}

/// The candidates of a side among the first `n` facts.
pub open spec fn side_candidates(
    side: ImpactSide,
    alias: Seq<char>,
    subject: KotlinImpactSubjectModel,
    entries: Seq<FactEntryModel>,
    matched: Seq<Seq<char>>,
    n: nat,
) -> Seq<CandidateModel>
    decreases n,
{
    if n == 0 || n > entries.len() {
        Seq::empty()
    } else {
        let before = side_candidates(side, alias, subject, entries, matched, (n - 1) as nat);
        let entry = entries[n - 1];
        if entry.fact.provenance().member_alias == alias && is_match(
            entry.fact,
            subject,
            entries,
            alias,
            matched,
        ) {
            before.push(
                CandidateModel {
                    side,
                    member_alias: alias,
                    fact: entry.fact,
                    shard_ref: entry.shard_ref,
                },
            )
        } else {
            before
        }
    }
}

fn collect_candidates(
    side: ImpactSide,
    alias: &String,
    subject: &KotlinImpactSubject,
    entries: &Vec<FactEntry>,
    matched: &Vec<String>,
    candidates: &mut Vec<Candidate>,
)
    ensures
        final(candidates).deep_view() == old(candidates).deep_view() + side_candidates(
            side,
            alias@,
            subject.deep_view(),
            entries.deep_view(),
            matched.deep_view(),
            entries@.len(),
        ),
{
    let ghost start = candidates.deep_view();
    let ghost m = entries.deep_view();
    let mut i: usize = 0;
    assert(candidates.deep_view() =~= start + side_candidates(
        side,
        alias@,
        subject.deep_view(),
        m,
        matched.deep_view(),
        0,
    ));
    while i < entries.len()
        invariant
            i <= entries.len(),
            m == entries.deep_view(),
            candidates.deep_view() == start + side_candidates(
                side,
                alias@,
                subject.deep_view(),
                m,
                matched.deep_view(),
                i as nat,
            ),
        decreases entries.len() - i,
    {
        let ghost before = candidates.deep_view();
        let entry = &entries[i];
        assert(m[i as int] == entry.deep_view());
        if same_text(entry.fact.provenance().member_alias.as_str(), alias.as_str()) && fact_matches(
            &entry.fact,
            subject,
            entries,
            alias.as_str(),
            matched,
        ) {
            let candidate = Candidate {
                side,
                member_alias: alias.clone(),
                fact: entry.fact.copied(),
                shard_ref: entry.shard_ref.copied(),
            };
            let ghost added = candidate.deep_view();
            candidates.push(candidate);
            assert(candidates.deep_view() =~= before.push(added));
        }
        proof {
            assert(candidates.deep_view() =~= start + side_candidates(
                side,
                alias@,
                subject.deep_view(),
                m,
                matched.deep_view(),
                (i + 1) as nat,
            ));
        }
        i = i + 1;
    }
}

/// The candidates of both sides, in the order of side, kind and identity.
pub open spec fn candidates_of(
    scope: ImpactScope,
    subject: KotlinImpactSubjectModel,
    matched: Seq<Seq<char>>,
) -> Seq<CandidateModel> {
    order::sorted::<Candidate>(
        side_candidates(
            ImpactSide::Provider,
            scope.provider.member_alias,
            subject,
            scope.entries,
            matched,
            scope.entries.len(),
        ) + side_candidates(
            ImpactSide::Consumer,
            scope.consumer.member_alias,
            subject,
            scope.entries,
            matched,
            scope.entries.len(),
        ),
    )
}

/// The candidates of a side.
pub open spec fn of_side(candidates: Seq<CandidateModel>, side: ImpactSide) -> Seq<CandidateModel> {
    candidates.filter(|c: CandidateModel| c.side == side)
}

/// The candidates of a kind.
pub open spec fn of_kind(candidates: Seq<CandidateModel>, kind: CallableFactKind) -> Seq<
    CandidateModel,
> {
    candidates.filter(|c: CandidateModel| c.fact.kind() == kind)
}

fn take_side(candidates: &Vec<Candidate>, side: ImpactSide) -> (r: Vec<Candidate>)
    ensures
        r.deep_view() == of_side(candidates.deep_view(), side),
{
    let ghost m = candidates.deep_view();
    let ghost wanted = |c: CandidateModel| c.side == side;
    let mut found: Vec<Candidate> = Vec::new();
    let mut i: usize = 0;
    proof {
        reveal(Seq::filter);
        assert(found.deep_view() =~= m.take(0).filter(wanted));
    }
    while i < candidates.len()
        invariant
            i <= candidates.len(),
            m == candidates.deep_view(),
            wanted == (|c: CandidateModel| c.side == side),
            found.deep_view() == m.take(i as int).filter(wanted),
        decreases candidates.len() - i,
    {
        let ghost before = found.deep_view();
        proof {
            reveal(Seq::filter);
            assert(m[i as int] == candidates@[i as int].deep_view());
            assert(m.take(i + 1).drop_last() =~= m.take(i as int));
        }
        if candidates[i].side == side {
            found.push(candidates[i].copied());
            assert(found.deep_view() =~= before.push(m[i as int]));
        }
        i = i + 1;
    }
    assert(m.take(m.len() as int) =~= m);
    found
}

fn take_kind(candidates: &Vec<Candidate>, kind: CallableFactKind) -> (r: Vec<Candidate>)
    ensures
        r.deep_view() == of_kind(candidates.deep_view(), kind),
{
    let ghost m = candidates.deep_view();
    let ghost wanted = |c: CandidateModel| c.fact.kind() == kind;
    let mut found: Vec<Candidate> = Vec::new();
    let mut i: usize = 0;
    proof {
        reveal(Seq::filter);
        assert(found.deep_view() =~= m.take(0).filter(wanted));
    }
    while i < candidates.len()
        invariant
            i <= candidates.len(),
            m == candidates.deep_view(),
            wanted == (|c: CandidateModel| c.fact.kind() == kind),
            found.deep_view() == m.take(i as int).filter(wanted),
        decreases candidates.len() - i,
    {
        let ghost before = found.deep_view();
        proof {
            reveal(Seq::filter);
            assert(m[i as int] == candidates@[i as int].deep_view());
            assert(m.take(i + 1).drop_last() =~= m.take(i as int));
        }
        if candidates[i].fact.kind() == kind {
            found.push(candidates[i].copied());
            assert(found.deep_view() =~= before.push(m[i as int]));
        }
        i = i + 1;
    }
    assert(m.take(m.len() as int) =~= m);
    found
}

/// Something to be done about a member.
pub open spec fn about_member(code: ImpactObligationCode, alias: Seq<char>) -> ImpactObligationModel {
    ImpactObligationModel { code, member_alias: Some(alias), fact_id: None, required_check: None }
}

/// Something to be done about the impact as a whole.
pub open spec fn about_all(code: ImpactObligationCode) -> ImpactObligationModel {
    ImpactObligationModel { code, member_alias: None, fact_id: None, required_check: None }
}

/// Something to be done about a fact of a member.
pub open spec fn about_fact(
    code: ImpactObligationCode,
    alias: Seq<char>,
    fact_id: Seq<char>,
) -> ImpactObligationModel {
    ImpactObligationModel {
        code,
        member_alias: Some(alias),
        fact_id: Some(fact_id),
        required_check: None,
    }
}

fn owned(s: Option<&str>) -> (r: Option<String>)
    ensures
        r.deep_view() == (match s {
            Some(s) => Some(s@),
            None => None,
        }),
{
    match s {
        Some(s) => Some(s.to_owned()),
        None => None,
    }
}

/// Makes an obligation.
pub fn obligation(
    code: ImpactObligationCode,
    member_alias: Option<&str>,
    fact_id: Option<&str>,
    required_check: Option<&str>,
) -> (r: ImpactObligation)
    ensures
        r.deep_view() == (ImpactObligationModel {
            code,
            member_alias: match member_alias {
                Some(s) => Some(s@),
                None => None,
            },
            fact_id: match fact_id {
                Some(s) => Some(s@),
                None => None,
            },
            required_check: match required_check {
                Some(s) => Some(s@),
                None => None,
            },
        }),
{
    ImpactObligation {
        code,
        member_alias: owned(member_alias),
        fact_id: owned(fact_id),
        required_check: owned(required_check),
    }
}

fn add_obligation(
    list: &mut Vec<ImpactObligation>,
    code: ImpactObligationCode,
    member_alias: Option<&str>,
    fact_id: Option<&str>,
    required_check: Option<&str>,
)
    ensures
        final(list).deep_view() == old(list).deep_view().push(
            (ImpactObligationModel {
                code,
                member_alias: match member_alias {
                    Some(s) => Some(s@),
                    None => None,
                },
                fact_id: match fact_id {
                    Some(s) => Some(s@),
                    None => None,
                },
                required_check: match required_check {
                    Some(s) => Some(s@),
                    None => None,
                },
            }),
        ),
{
    let ghost before = list.deep_view();
    let made = obligation(code, member_alias, fact_id, required_check);
    let ghost added = made.deep_view();
    list.push(made);
    assert(list.deep_view() =~= before.push(added));
}

/// Whether the descriptors of every compilation of a member are complete.
pub open spec fn descriptor_scope_complete(member: CallableMemberBindingModel) -> bool {
    member.compilations.len() > 0 && forall|i: int|
        0 <= i < member.compilations.len() ==> (#[trigger] member.compilations[i]).descriptor_coverage
            == GraphCoverage::CompleteSupportedSubset
}

fn has_complete_descriptors(member: &CallableMemberBinding) -> (r: bool)
    ensures
        r == descriptor_scope_complete(member.deep_view()),
{
    let compilations = &member.compilations;
    let ghost m = compilations.deep_view();
    if compilations.len() == 0 {
        return false;
    }
    let mut i: usize = 0;
    while i < compilations.len()
        invariant
            i <= compilations.len(),
            m == compilations.deep_view(),
            m == member.deep_view().compilations,
            m.len() > 0,
            forall|k: int|
                0 <= k < i ==> (#[trigger] m[k]).descriptor_coverage
                    == GraphCoverage::CompleteSupportedSubset,
        decreases compilations.len() - i,
    {
        assert(m[i as int] == compilations@[i as int].deep_view());
        if compilations[i].descriptor_coverage != GraphCoverage::CompleteSupportedSubset {
            return false;
        }
        i = i + 1;
    }
    true
}

/// A list with something added where a condition holds.
pub open spec fn added_if<A>(s: Seq<A>, condition: bool, x: A) -> Seq<A> {
    if condition {
        s.push(x)
    } else {
        s
    }
}

/// What the candidates of a member leave to be done about the member.
pub open spec fn member_obligations(
    before: Seq<ImpactObligationModel>,
    member: CallableMemberBindingModel,
    subject: KotlinImpactSubjectModel,
    mine: Seq<CandidateModel>,
) -> Seq<ImpactObligationModel> {
    let declared = of_kind(mine, CallableFactKind::Declaration).len();
    let alias = member.member_alias;
    let a = added_if(
        before,
        mine.len() == 0,
        about_member(ImpactObligationCode::SubjectNotObservedInMember, alias),
    );
    let b = added_if(
        a,
        declared == 0,
        about_member(ImpactObligationCode::ProjectedDeclarationNotObserved, alias),
    );
    let c = added_if(
        b,
        declared > 1,
        about_member(ImpactObligationCode::DisambiguateOverloadSet, alias),
    );
    added_if(
        c,
        subject is CallableFamily && !descriptor_scope_complete(member),
        about_member(ImpactObligationCode::CompleteDescriptorScope, alias),
    )
}

/// The digest of the shape of the subject in a member, where it is exact: the
/// subject is no token, there is one declaration, it is exact, nothing bounds it,
/// and for a family the descriptors are complete.
pub open spec fn exact_shape(
    member: CallableMemberBindingModel,
    subject: KotlinImpactSubjectModel,
    mine: Seq<CandidateModel>,
) -> Option<Seq<char>> {
    let declared = of_kind(mine, CallableFactKind::Declaration);
    if !(subject is Token) && declared.len() == 1 && of_kind(
        mine,
        CallableFactKind::Boundary,
    ).len() == 0 && (!(subject is CallableFamily) || descriptor_scope_complete(member)) {
        match declared[0].fact {
            CallableFactModel::Declaration(row) => if row.exact_eligible {
                row.shape_digest
            } else {
                None
            },
            _ => None,
        }
    } else {
        None
    }
}

/// What was found in a member, before the selection.
pub open spec fn member_analyzed(
    side: ImpactSide,
    member: CallableMemberBindingModel,
    subject: KotlinImpactSubjectModel,
    mine: Seq<CandidateModel>,
) -> ImpactMemberResultModel {
    ImpactMemberResultModel {
        side,
        member_alias: member.member_alias,
        repository_namespace: member.repository_namespace,
        observed: mine.len() > 0,
        matched_finding_count: mine.len() as usize,
        selected_finding_count: 0,
        declaration_count: of_kind(mine, CallableFactKind::Declaration).len() as usize,
        use_count: of_kind(mine, CallableFactKind::Use).len() as usize,
        boundary_count: of_kind(mine, CallableFactKind::Boundary).len() as usize,
        exact_shape_digest: exact_shape(member, subject, mine),
    }
}

fn analyze_member(
    side: ImpactSide,
    member: &CallableMemberBinding,
    subject: &KotlinImpactSubject,
    candidates: &Vec<Candidate>,
    obligations: &mut Vec<ImpactObligation>,
) -> (r: ImpactMemberResult)
    ensures
        r.deep_view() == member_analyzed(
            side,
            member.deep_view(),
            subject.deep_view(),
            candidates.deep_view(),
        ),
        final(obligations).deep_view() == member_obligations(
            old(obligations).deep_view(),
            member.deep_view(),
            subject.deep_view(),
            candidates.deep_view(),
        ),
{
    let declarations = take_kind(candidates, CallableFactKind::Declaration);
    let use_count: usize = take_kind(candidates, CallableFactKind::Use).len();
    let boundary_count: usize = take_kind(candidates, CallableFactKind::Boundary).len();
    let alias = Some(member.member_alias.as_str());
    if candidates.len() == 0 {
        add_obligation(
            obligations,
            ImpactObligationCode::SubjectNotObservedInMember,
            alias,
            None,
            None,
        );
    }
    if declarations.len() == 0 {
        add_obligation(
            obligations,
            ImpactObligationCode::ProjectedDeclarationNotObserved,
            alias,
            None,
            None,
        );
    }
    if declarations.len() > 1 {
        add_obligation(
            obligations,
            ImpactObligationCode::DisambiguateOverloadSet,
            alias,
            None,
            None,
        );
    }
    let family = subject.kind() == ImpactSubjectKind::CallableFamily;
    let descriptor_complete = has_complete_descriptors(member);
    if family && !descriptor_complete {
        add_obligation(
            obligations,
            ImpactObligationCode::CompleteDescriptorScope,
            alias,
            None,
            None,
        );
    }
    let exact_shape_digest = if subject.kind() != ImpactSubjectKind::Token && declarations.len()
        == 1 && boundary_count == 0 && (!family || descriptor_complete) {
        assert(declarations.deep_view()[0] == declarations@[0].deep_view());
        match &declarations[0].fact {
            CallableFact::Declaration(row) => if row.exact_eligible {
                row.shape_digest.copied()
            } else {
                None
            },
            _ => None,
        }
    } else {
        None
    };
    ImpactMemberResult {
        side,
        member_alias: member.member_alias.clone(),
        repository_namespace: member.repository_namespace.clone(),
        observed: candidates.len() > 0,
        matched_finding_count: candidates.len(),
        selected_finding_count: 0,
        declaration_count: declarations.len(),
        use_count,
        boundary_count,
        exact_shape_digest,
    }
}

/// How the shapes of the subject on both sides compare.
pub open spec fn shapes_compared(
    subject: KotlinImpactSubjectModel,
    provider: ImpactMemberResultModel,
    consumer: ImpactMemberResultModel,
) -> ImpactShapeStatus {
    if subject is Token {
        ImpactShapeStatus::NotComparable
    } else {
        match (provider.exact_shape_digest, consumer.exact_shape_digest) {
            (Some(left), Some(right)) => if left == right {
                ImpactShapeStatus::ExactProjectedShapeEqual
            } else {
                ImpactShapeStatus::ExactProjectedShapeDelta
            },
            _ => if provider.declaration_count == 0 || consumer.declaration_count == 0 {
                ImpactShapeStatus::NotComparable
            } else {
                ImpactShapeStatus::Unsure
            },
        }
    }
}

fn shape_status(
    subject: &KotlinImpactSubject,
    provider: &ImpactMemberResult,
    consumer: &ImpactMemberResult,
) -> (r: ImpactShapeStatus)
    ensures
        r == shapes_compared(subject.deep_view(), provider.deep_view(), consumer.deep_view()),
{
    if subject.kind() == ImpactSubjectKind::Token {
        return ImpactShapeStatus::NotComparable;
    }
    match (&provider.exact_shape_digest, &consumer.exact_shape_digest) {
        (Some(left), Some(right)) => if same_text(left.as_str(), right.as_str()) {
            ImpactShapeStatus::ExactProjectedShapeEqual
        } else {
            ImpactShapeStatus::ExactProjectedShapeDelta
        },
        _ => if provider.declaration_count == 0 || consumer.declaration_count == 0 {
            ImpactShapeStatus::NotComparable
        } else {
            ImpactShapeStatus::Unsure
        },
    }
}

/// The checks that a boundary asks for, the first `n` of them.
pub open spec fn checks_obliged(
    before: Seq<ImpactObligationModel>,
    alias: Seq<char>,
    row: BoundaryFactModel,
    n: nat,
) -> Seq<ImpactObligationModel>
    decreases n,
{
    if n == 0 || n > row.required_checks.len() {
        before
    } else {
        checks_obliged(before, alias, row, (n - 1) as nat).push(
            ImpactObligationModel {
                code: ImpactObligationCode::VerifyBoundaryCheck,
                member_alias: Some(alias),
                fact_id: Some(row.fact_id),
                required_check: Some(row.required_checks[n - 1]),
            },
        )
    }
}

/// What a candidate leaves to be done.
pub open spec fn fact_obliged(before: Seq<ImpactObligationModel>, c: CandidateModel) -> Seq<
    ImpactObligationModel,
> {
    match c.fact {
        CallableFactModel::Declaration(row) => added_if(
            before,
            !row.exact_eligible,
            about_fact(
                ImpactObligationCode::VerifyDeclarationEvidence,
                c.member_alias,
                row.fact_id,
            ),
        ),
        CallableFactModel::Use(row) => added_if(
            before,
            !row.exact_eligible,
            about_fact(ImpactObligationCode::VerifyUseEvidence, c.member_alias, row.fact_id),
        ),
        CallableFactModel::Boundary(row) => checks_obliged(
            before.push(
                about_fact(
                    ImpactObligationCode::VerifyRelatedBoundary,
                    c.member_alias,
                    row.fact_id,
                ),
            ),
            c.member_alias,
            row,
            row.required_checks.len(),
        ),
    }
}

/// What the first `n` candidates leave to be done.
pub open spec fn facts_obliged(
    before: Seq<ImpactObligationModel>,
    candidates: Seq<CandidateModel>,
    n: nat,
) -> Seq<ImpactObligationModel>
    decreases n,
{
    if n == 0 || n > candidates.len() {
        before
    } else {
        fact_obliged(facts_obliged(before, candidates, (n - 1) as nat), candidates[n - 1])
    }
}

fn add_checks(alias: &String, row: &BoundaryFact, obligations: &mut Vec<ImpactObligation>)
    ensures
        final(obligations).deep_view() == checks_obliged(
            old(obligations).deep_view(),
            alias@,
            row.deep_view(),
            row.deep_view().required_checks.len(),
        ),
{
    let ghost start = obligations.deep_view();
    let ghost m = row.deep_view();
    let checks = &row.required_checks;
    let mut i: usize = 0;
    while i < checks.len()
        invariant
            i <= checks.len(),
            m == row.deep_view(),
            m.required_checks == checks.deep_view(),
            obligations.deep_view() == checks_obliged(start, alias@, m, i as nat),
        decreases checks.len() - i,
    {
        assert(m.required_checks[i as int] == checks@[i as int]@);
        add_obligation(
            obligations,
            ImpactObligationCode::VerifyBoundaryCheck,
            Some(alias.as_str()),
            Some(row.fact_id.as_str()),
            Some(checks[i].as_str()),
        );
        i = i + 1;
    }
}

fn add_fact_obligation(candidate: &Candidate, obligations: &mut Vec<ImpactObligation>)
    ensures
        final(obligations).deep_view() == fact_obliged(
            old(obligations).deep_view(),
            candidate.deep_view(),
        ),
{
    let alias = Some(candidate.member_alias.as_str());
    match &candidate.fact {
        CallableFact::Declaration(row) => {
            if !row.exact_eligible {
                add_obligation(
                    obligations,
                    ImpactObligationCode::VerifyDeclarationEvidence,
                    alias,
                    Some(row.fact_id.as_str()),
                    None,
                );
            }
        },
        CallableFact::Use(row) => {
            if !row.exact_eligible {
                add_obligation(
                    obligations,
                    ImpactObligationCode::VerifyUseEvidence,
                    alias,
                    Some(row.fact_id.as_str()),
                    None,
                );
            }
        },
        CallableFact::Boundary(row) => {
            add_obligation(
                obligations,
                ImpactObligationCode::VerifyRelatedBoundary,
                alias,
                Some(row.fact_id.as_str()),
                None,
            );
            add_checks(&candidate.member_alias, row, obligations);
        },
    }
}

fn add_fact_obligations(candidates: &Vec<Candidate>, obligations: &mut Vec<ImpactObligation>)
    ensures
        final(obligations).deep_view() == facts_obliged(
            old(obligations).deep_view(),
            candidates.deep_view(),
            candidates@.len(),
        ),
{
    let ghost start = obligations.deep_view();
    let ghost m = candidates.deep_view();
    let mut i: usize = 0;
    while i < candidates.len()
        invariant
            i <= candidates.len(),
            m == candidates.deep_view(),
            obligations.deep_view() == facts_obliged(start, m, i as nat),
        decreases candidates.len() - i,
    {
        assert(m[i as int] == candidates@[i as int].deep_view());
        add_fact_obligation(&candidates[i], obligations);
        i = i + 1;
    }
}

/// A lane of the candidates: those of a side and a kind.
pub open spec fn lane(
    candidates: Seq<CandidateModel>,
    side: ImpactSide,
    kind: CallableFactKind,
) -> Seq<CandidateModel> {
    of_kind(of_side(candidates, side), kind)
}

/// The lanes of the candidates, in the order in which they take turns.
pub open spec fn lanes_of(candidates: Seq<CandidateModel>) -> Seq<Seq<CandidateModel>> {
    seq![
        lane(candidates, ImpactSide::Provider, CallableFactKind::Declaration),
        lane(candidates, ImpactSide::Provider, CallableFactKind::Use),
        lane(candidates, ImpactSide::Provider, CallableFactKind::Boundary),
        lane(candidates, ImpactSide::Consumer, CallableFactKind::Declaration),
        lane(candidates, ImpactSide::Consumer, CallableFactKind::Use),
        lane(candidates, ImpactSide::Consumer, CallableFactKind::Boundary),
    ]
}

/// The candidates that are selected, at most `limit`, the lanes taking turns.
pub open spec fn fairly_taken(candidates: Seq<CandidateModel>, limit: usize) -> Seq<CandidateModel> {
    first_of(fair_order(lanes_of(candidates)), limit as nat)
}

/// Selects at most `limit` candidates, the lanes taking turns, and says whether
/// some were left out.
pub fn fair_take_candidates(candidates: &Vec<Candidate>, limit: usize) -> (r: (Vec<Candidate>, bool))
    ensures
        r.0.deep_view() == fairly_taken(candidates.deep_view(), limit),
        r.1 == (candidates@.len() > limit),
{
    let provider = take_side(candidates, ImpactSide::Provider);
    let consumer = take_side(candidates, ImpactSide::Consumer);
    let lanes = vec![
        take_kind(&provider, CallableFactKind::Declaration),
        take_kind(&provider, CallableFactKind::Use),
        take_kind(&provider, CallableFactKind::Boundary),
        take_kind(&consumer, CallableFactKind::Declaration),
        take_kind(&consumer, CallableFactKind::Use),
        take_kind(&consumer, CallableFactKind::Boundary),
    ];
    assert(lanes.deep_view() =~= lanes_of(candidates.deep_view()));
    (take_fairly(&lanes, limit), candidates.len() > limit)
}

proof fn sides_partition(candidates: Seq<CandidateModel>)
    ensures
        of_side(candidates, ImpactSide::Provider).len() + of_side(
            candidates,
            ImpactSide::Consumer,
        ).len() == candidates.len(),
    decreases candidates.len(),
{
    reveal(Seq::filter);
    if candidates.len() > 0 {
        sides_partition(candidates.drop_last());
    }
}

proof fn kinds_partition(candidates: Seq<CandidateModel>)
    ensures
        of_kind(candidates, CallableFactKind::Declaration).len() + of_kind(
            candidates,
            CallableFactKind::Use,
        ).len() + of_kind(candidates, CallableFactKind::Boundary).len() == candidates.len(),
    decreases candidates.len(),
{
    reveal(Seq::filter);
    if candidates.len() > 0 {
        kinds_partition(candidates.drop_last());
    }
}

/// A selection takes as many candidates as its limit allows: all of them, or as
/// many as the limit says.
pub proof fn fair_selection_fills_its_limit(candidates: Seq<CandidateModel>, limit: usize)
    ensures
        fairly_taken(candidates, limit).len() == if candidates.len() <= limit {
            candidates.len()
        } else {
            limit as nat
        },
        fair_order(lanes_of(candidates)).len() == candidates.len(),
{
    let lanes = lanes_of(candidates);
    fair_order_is_complete(lanes);
    sides_partition(candidates);
    kinds_partition(of_side(candidates, ImpactSide::Provider));
    kinds_partition(of_side(candidates, ImpactSide::Consumer));
    reveal_with_fuel(lane_total, 7);
    assert(lane_total(lanes, 6) == candidates.len());
}

/// The pointer to the fact of a candidate.
pub open spec fn pointer_to(c: CandidateModel) -> ImpactFactPointerModel {
    ImpactFactPointerModel {
        fact_id: c.fact.fact_id(),
        fact_shard_ref: c.shard_ref,
        provenance: c.fact.provenance(),
        shape_digest: match c.fact {
            CallableFactModel::Declaration(row) => row.shape_digest,
            _ => None,
        },
    }
}

fn fact_pointer(candidate: &Candidate) -> (r: ImpactFactPointer)
    ensures
        r.deep_view() == pointer_to(candidate.deep_view()),
{
    let shape_digest: Option<String> = match &candidate.fact {
        CallableFact::Declaration(row) => row.shape_digest.copied(),
        _ => None,
    };
    ImpactFactPointer {
        fact_id: candidate.fact.fact_id().clone(),
        fact_shard_ref: candidate.shard_ref.copied(),
        provenance: candidate.fact.provenance().copied(),
        shape_digest,
    }
}

/// What a fact says.
pub open spec fn detail_of(fact: CallableFactModel) -> ImpactFindingDetailModel {
    match fact {
        CallableFactModel::Declaration(row) => ImpactFindingDetailModel::Declaration {
            declaration_kind: row.declaration_kind,
            symbol_identity: row.symbol_identity,
            compiler_callable_id: row.compiler_callable_id,
            compiler_class_id: row.compiler_class_id,
            projected_shape: row.projected_shape,
        },
        CallableFactModel::Use(row) => ImpactFindingDetailModel::Use {
            relation_kind: row.relation_kind,
            source_owner: row.source_owner,
            target_callable_id: row.target_callable_id,
            target_symbol_identity: row.target_symbol_identity,
            target_repository_namespace: row.target_repository_namespace,
            target_resolution: row.target_resolution,
        },
        CallableFactModel::Boundary(row) => ImpactFindingDetailModel::Boundary {
            stage: row.stage,
            code: row.code,
            subject: row.subject,
            required_checks: row.required_checks,
        },
    }
}

fn fact_detail(fact: &CallableFact) -> (r: ImpactFindingDetail)
    ensures
        r.deep_view() == detail_of(fact.deep_view()),
{
    match fact {
        CallableFact::Declaration(row) => ImpactFindingDetail::Declaration {
            declaration_kind: row.declaration_kind,
            symbol_identity: row.symbol_identity.clone(),
            compiler_callable_id: row.compiler_callable_id.copied(),
            compiler_class_id: row.compiler_class_id.copied(),
            projected_shape: row.projected_shape.copied(),
        },
        CallableFact::Use(row) => ImpactFindingDetail::Use {
            relation_kind: row.relation_kind.clone(),
            source_owner: row.source_owner.clone(),
            target_callable_id: row.target_callable_id.clone(),
            target_symbol_identity: row.target_symbol_identity.copied(),
            target_repository_namespace: row.target_repository_namespace.copied(),
            target_resolution: row.target_resolution,
        },
        CallableFact::Boundary(row) => ImpactFindingDetail::Boundary {
            stage: row.stage.clone(),
            code: row.code.clone(),
            subject: row.subject.copied(),
            required_checks: row.required_checks.copied(),
        },
    }
}

/// What a fact can be relied on for. A declaration that the compiler projected
/// exactly stays exact, also where there are several of the same family.
pub open spec fn authority_of(
    fact: CallableFactModel,
    subject: KotlinImpactSubjectModel,
) -> ImpactFindingAuthority {
    match fact {
        CallableFactModel::Declaration(row) => if subject is Token {
            ImpactFindingAuthority::NavigationOnly
        } else if row.exact_eligible && row.shape_digest is Some {
            ImpactFindingAuthority::ExactProjectedDeclaration
        } else if row.exact_eligible {
            ImpactFindingAuthority::NavigationOnly
        } else {
            ImpactFindingAuthority::Unsure
        },
        CallableFactModel::Use(row) => if row.exact_eligible || subject is Token {
            ImpactFindingAuthority::NavigationOnly
        } else {
            ImpactFindingAuthority::Unsure
        },
        CallableFactModel::Boundary(_) => ImpactFindingAuthority::Unsure,
    }
}

fn finding_authority(fact: &CallableFact, token: bool) -> (r: ImpactFindingAuthority)
    ensures
        forall|subject: KotlinImpactSubjectModel|
            (subject is Token) == token ==> r == #[trigger] authority_of(fact.deep_view(), subject),
{
    match fact {
        CallableFact::Declaration(row) => if token {
            ImpactFindingAuthority::NavigationOnly
        } else if row.exact_eligible && row.shape_digest.is_some() {
            ImpactFindingAuthority::ExactProjectedDeclaration
        } else if row.exact_eligible {
            ImpactFindingAuthority::NavigationOnly
        } else {
            ImpactFindingAuthority::Unsure
        },
        CallableFact::Use(row) => if row.exact_eligible || token {
            ImpactFindingAuthority::NavigationOnly
        } else {
            ImpactFindingAuthority::Unsure
        },
        CallableFact::Boundary(_) => ImpactFindingAuthority::Unsure,
    }
}

/// What the identity of a finding is taken of.
pub open spec fn finding_material(binding: Seq<char>, c: CandidateModel) -> JsonModel {
    JsonModel::Arr(
        seq![
            JsonModel::Str("codeclew-kotlin-thread-impact-finding/1.0"@),
            JsonModel::Str(binding),
            <ImpactSide as Record>::json(c.side),
            <CallableFactKind as Record>::json(c.fact.kind()),
            JsonModel::Str(c.fact.fact_id()),
            <CasObject as Record>::json(c.shard_ref),
        ],
    )
}

/// The finding of a candidate.
pub open spec fn finding_of(
    binding: Seq<char>,
    c: CandidateModel,
    subject: KotlinImpactSubjectModel,
) -> ImpactFindingModel {
    ImpactFindingModel {
        finding_id: json_digest(finding_material(binding, c)),
        side: c.side,
        member_alias: c.member_alias,
        fact_kind: c.fact.kind(),
        authority: authority_of(c.fact, subject),
        evidence: pointer_to(c),
        detail: detail_of(c.fact),
    }
}

fn finding_from_candidate(
    binding_digest: &String,
    candidate: &Candidate,
    subject: &KotlinImpactSubject,
) -> (r: ImpactFinding)
    ensures
        r.deep_view() == finding_of(
            binding_digest@,
            candidate.deep_view(),
            subject.deep_view(),
        ),
{
    let fact_kind = candidate.fact.kind();
    let items = vec![
        Json::Str("codeclew-kotlin-thread-impact-finding/1.0".to_owned()),
        Json::Str(binding_digest.clone()),
        candidate.side.to_json(),
        fact_kind.to_json(),
        Json::Str(candidate.fact.fact_id().clone()),
        candidate.shard_ref.to_json(),
    ];
    assert(JsonModel::Arr(items.deep_view()) == finding_material(
        binding_digest@,
        candidate.deep_view(),
    )) by {
        assert(items.deep_view() =~= finding_material(
            binding_digest@,
            candidate.deep_view(),
        )->Arr_0);
    }
    ImpactFinding {
        finding_id: hash(&list(items)),
        side: candidate.side,
        member_alias: candidate.member_alias.clone(),
        fact_kind,
        authority: finding_authority(
            &candidate.fact,
            subject.kind() == ImpactSubjectKind::Token,
        ),
        evidence: fact_pointer(candidate),
        detail: fact_detail(&candidate.fact),
    }
}

/// The findings of some candidates.
pub open spec fn findings_of(
    binding: Seq<char>,
    candidates: Seq<CandidateModel>,
    subject: KotlinImpactSubjectModel,
) -> Seq<ImpactFindingModel> {
    Seq::new(candidates.len(), |i: int| finding_of(binding, candidates[i], subject))
}

fn make_findings(
    binding_digest: &String,
    candidates: &Vec<Candidate>,
    subject: &KotlinImpactSubject,
) -> (r: Vec<ImpactFinding>)
    ensures
        r.deep_view() == findings_of(
            binding_digest@,
            candidates.deep_view(),
            subject.deep_view(),
        ),
{
    let ghost m = candidates.deep_view();
    let mut findings: Vec<ImpactFinding> = Vec::new();
    let mut i: usize = 0;
    while i < candidates.len()
        invariant
            i <= candidates.len(),
            m == candidates.deep_view(),
            findings@.len() == i,
            forall|k: int|
                0 <= k < i ==> (#[trigger] findings@[k]).deep_view() == finding_of(
                    binding_digest@,
                    m[k],
                    subject.deep_view(),
                ),
        decreases candidates.len() - i,
    {
        assert(m[i as int] == candidates@[i as int].deep_view());
        findings.push(finding_from_candidate(binding_digest, &candidates[i], subject));
        i = i + 1;
    }
    assert(findings.deep_view() =~= findings_of(binding_digest@, m, subject.deep_view()));
    findings
}

/// What is shown of a finding.
pub open spec fn shown_finding(f: ImpactFindingModel) -> ImpactPublicFindingModel {
    ImpactPublicFindingModel {
        finding_id: f.finding_id,
        side: f.side,
        member_alias: f.member_alias,
        fact_id: f.evidence.fact_id,
        authority: f.authority,
        shape_digest: f.evidence.shape_digest,
        source: f.evidence.provenance.source,
        detail: f.detail,
    }
}

fn public_finding(finding: &ImpactFinding) -> (r: ImpactPublicFinding)
    ensures
        r.deep_view() == shown_finding(finding.deep_view()),
{
    ImpactPublicFinding {
        finding_id: finding.finding_id.clone(),
        side: finding.side,
        member_alias: finding.member_alias.clone(),
        fact_id: finding.evidence.fact_id.clone(),
        authority: finding.authority,
        shape_digest: finding.evidence.shape_digest.copied(),
        source: finding.evidence.provenance.source.copied(),
        detail: finding.detail.copied(),
    }
}

/// The place of a finding that has one.
pub open spec fn place_of(f: ImpactFindingModel) -> Option<WindowAnchorModel> {
    match f.evidence.provenance.source {
        Some(anchor) => Some(
            WindowAnchorModel { side: f.side, member_alias: f.member_alias, anchor },
        ),
        None => None,
    }
}

/// The places of the first `n` findings.
pub open spec fn places_of(findings: Seq<ImpactFindingModel>, n: nat) -> Seq<WindowAnchorModel>
    decreases n,
{
    if n == 0 || n > findings.len() {
        Seq::empty()
    } else {
        match place_of(findings[n - 1]) {
            Some(place) => places_of(findings, (n - 1) as nat).push(place),
            None => places_of(findings, (n - 1) as nat),
        }
    }
}

/// Whether a finding stands at a place.
pub open spec fn stands_at(f: ImpactFindingModel, place: WindowAnchorModel) -> bool {
    match place_of(f) {
        Some(other) => WindowAnchor::parts(other) == WindowAnchor::parts(place),
        None => false,
    }
}

/// The identities of those of the first `n` findings that stand at a place.
pub open spec fn findings_at(
    findings: Seq<ImpactFindingModel>,
    place: WindowAnchorModel,
    n: nat,
) -> Seq<Seq<char>>
    decreases n,
{
    if n == 0 || n > findings.len() {
        Seq::empty()
    } else if stands_at(findings[n - 1], place) {
        findings_at(findings, place, (n - 1) as nat).push(findings[n - 1].finding_id)
    } else {
        findings_at(findings, place, (n - 1) as nat)
    }
}

fn finding_place(finding: &ImpactFinding) -> (r: Option<WindowAnchor>)
    ensures
        r.deep_view() == place_of(finding.deep_view()),
{
    match &finding.evidence.provenance.source {
        Some(anchor) => Some(
            WindowAnchor {
                side: finding.side,
                member_alias: finding.member_alias.clone(),
                anchor: anchor.copied(),
            },
        ),
        None => None,
    }
}

fn same_number(a: &Option<u64>, b: &Option<u64>) -> (r: bool)
    ensures
        r == (num_part(a.deep_view()) == num_part(b.deep_view())),
{
    match (a, b) {
        (Some(x), Some(y)) => *x == *y,
        (None, None) => true,
        _ => false,
    }
}

fn at_place(finding: &ImpactFinding, place: &WindowAnchor) -> (r: bool)
    ensures
        r == stands_at(finding.deep_view(), place.deep_view()),
{
    match &finding.evidence.provenance.source {
        Some(anchor) => {
            let r = finding.side == place.side && same_text(
                finding.member_alias.as_str(),
                place.member_alias.as_str(),
            ) && same_text(anchor.path.as_str(), place.anchor.path.as_str()) && same_number(
                &anchor.start,
                &place.anchor.start,
            ) && same_number(&anchor.end, &place.anchor.end) && same_text(
                anchor.content_ref.digest.as_str(),
                place.anchor.content_ref.digest.as_str(),
            );
            proof {
                let a = WindowAnchor::parts(place_of(finding.deep_view()).unwrap());
                let b = WindowAnchor::parts(place.deep_view());
                if a == b {
                    assert(a[0] == b[0] && a[1] == b[1] && a[2] == b[2] && a[3] == b[3] && a[4]
                        == b[4] && a[5] == b[5]);
                }
            }
            r
        },
        None => false,
    }
}

fn collect_places(findings: &Vec<ImpactFinding>) -> (r: Vec<WindowAnchor>)
    ensures
        r.deep_view() == places_of(findings.deep_view(), findings@.len()),
{
    let ghost m = findings.deep_view();
    let mut places: Vec<WindowAnchor> = Vec::new();
    let mut i: usize = 0;
    assert(places.deep_view() =~= places_of(m, 0));
    while i < findings.len()
        invariant
            i <= findings.len(),
            m == findings.deep_view(),
            places.deep_view() == places_of(m, i as nat),
        decreases findings.len() - i,
    {
        let ghost before = places.deep_view();
        assert(m[i as int] == findings@[i as int].deep_view());
        if let Some(place) = finding_place(&findings[i]) {
            let ghost added = place.deep_view();
            places.push(place);
            assert(places.deep_view() =~= before.push(added));
        }
        i = i + 1;
    }
    places
}

fn collect_ids(findings: &Vec<ImpactFinding>, place: &WindowAnchor) -> (r: Vec<String>)
    ensures
        r.deep_view() == findings_at(findings.deep_view(), place.deep_view(), findings@.len()),
{
    let ghost m = findings.deep_view();
    let mut ids: Vec<String> = Vec::new();
    let mut i: usize = 0;
    assert(ids.deep_view() =~= findings_at(m, place.deep_view(), 0));
    while i < findings.len()
        invariant
            i <= findings.len(),
            m == findings.deep_view(),
            ids.deep_view() == findings_at(m, place.deep_view(), i as nat),
        decreases findings.len() - i,
    {
        let ghost before = ids.deep_view();
        assert(m[i as int] == findings@[i as int].deep_view());
        if at_place(&findings[i], place) {
            ids.push(findings[i].finding_id.clone());
            assert(ids.deep_view() =~= before.push(m[i as int].finding_id));
        }
        i = i + 1;
    }
    ids
}

/// The number of bytes of a place: of its range, or of the whole file.
pub open spec fn span_of(anchor: SourceAnchorModel) -> Result<usize, ErrorModel> {
    let span: Option<u64> = match (anchor.start, anchor.end) {
        (Some(start), Some(end)) => Some(
            if end >= start {
                (end - start) as u64
            } else {
                0
            },
        ),
        (None, None) => Some(anchor.content_ref.size),
        _ => None,
    };
    match span {
        None => corrupted("impact source anchor range is inconsistent"@),
        Some(span) => match host_size(span) {
            None => exceeded("impact source span is not representable"@),
            Some(bytes) => Ok(bytes),
        },
    }
}

fn span_bytes(anchor: &SourceAnchor) -> (r: Result<usize, ClewError>)
    ensures
        match span_of(anchor.deep_view()) {
            Ok(bytes) => r == Ok::<usize, ClewError>(bytes),
            Err(e) => r is Err && r->Err_0.deep_view() == e,
        },
{
    let span: u64 = match (anchor.start, anchor.end) {
        (Some(start), Some(end)) => if end >= start {
            end - start
        } else {
            0
        },
        (None, None) => anchor.content_ref.size,
        _ => {
            return Err(corrupt("impact source anchor range is inconsistent"));
        },
    };
    match to_host_size(span) {
        None => Err(budget("impact source span is not representable")),
        Some(bytes) => Ok(bytes),
    }
}

/// What the identity of a window is taken of.
pub open spec fn window_material(
    binding: Seq<char>,
    place: WindowAnchorModel,
    ids: Seq<Seq<char>>,
) -> JsonModel {
    JsonModel::Arr(
        seq![
            JsonModel::Str("codeclew-kotlin-thread-impact-source-window/1.0"@),
            JsonModel::Str(binding),
            <ImpactSide as Record>::json(place.side),
            JsonModel::Str(place.member_alias),
            <SourceAnchor as Record>::json(place.anchor),
            <Vec<String> as Record>::json(ids),
        ],
    )
}

/// The window of a place.
pub open spec fn window_of(
    binding: Seq<char>,
    findings: Seq<ImpactFindingModel>,
    place: WindowAnchorModel,
) -> Result<ImpactSourceWindowModel, ErrorModel> {
    match span_of(place.anchor) {
        Err(e) => Err(e),
        Ok(span_bytes) => {
            let ids = first_table::<String>(findings_at(findings, place, findings.len()));
            Ok(
                ImpactSourceWindowModel {
                    window_id: json_digest(window_material(binding, place, ids)),
                    side: place.side,
                    member_alias: place.member_alias,
                    anchor: place.anchor,
                    span_bytes,
                    finding_ids: ids,
                },
            )
        },
    }
}

fn make_window(binding_digest: &str, findings: &Vec<ImpactFinding>, place: &WindowAnchor) -> (r:
    Result<ImpactSourceWindow, ClewError>)
    ensures
        outcome(r) == window_of(binding_digest@, findings.deep_view(), place.deep_view()),
{
    let bytes: usize = span_bytes(&place.anchor)?;
    let finding_ids = table_of(&collect_ids(findings, place));
    let items = vec![
        Json::Str("codeclew-kotlin-thread-impact-source-window/1.0".to_owned()),
        Json::Str(binding_digest.to_owned()),
        place.side.to_json(),
        Json::Str(place.member_alias.clone()),
        place.anchor.to_json(),
        finding_ids.to_json(),
    ];
    assert(JsonModel::Arr(items.deep_view()) == window_material(
        binding_digest@,
        place.deep_view(),
        finding_ids.deep_view(),
    )) by {
        assert(items.deep_view() =~= window_material(
            binding_digest@,
            place.deep_view(),
            finding_ids.deep_view(),
        )->Arr_0);
    }
    Ok(
        ImpactSourceWindow {
            window_id: hash(&list(items)),
            side: place.side,
            member_alias: place.member_alias.clone(),
            anchor: place.anchor.copied(),
            span_bytes: bytes,
            finding_ids,
        },
    )
}

/// The windows of the places from a place on.
pub open spec fn windows_from(
    binding: Seq<char>,
    findings: Seq<ImpactFindingModel>,
    places: Seq<WindowAnchorModel>,
    before: Seq<ImpactSourceWindowModel>,
    i: int,
) -> Result<Seq<ImpactSourceWindowModel>, ErrorModel>
    decreases places.len() - i,
{
    if i < 0 || i >= places.len() {
        Ok(before)
    } else {
        match window_of(binding, findings, places[i]) {
            Err(e) => Err(e),
            Ok(window) => windows_from(binding, findings, places, before.push(window), i + 1),
        }
    }
}

/// The windows of some findings, in the order of their places, each place once.
pub open spec fn windows_of(binding: Seq<char>, findings: Seq<ImpactFindingModel>) -> Result<
    Seq<ImpactSourceWindowModel>,
    ErrorModel,
> {
    windows_from(
        binding,
        findings,
        order::first_table::<WindowAnchor>(places_of(findings, findings.len())),
        Seq::empty(),
        0,
    )
}

fn make_windows(binding_digest: &str, findings: &Vec<ImpactFinding>) -> (r: Result<
    Vec<ImpactSourceWindow>,
    ClewError,
>)
    ensures
        outcome(r) == windows_of(binding_digest@, findings.deep_view()),
{
    let places = order::table_of(&collect_places(findings));
    let ghost m = places.deep_view();
    let ghost f = findings.deep_view();
    let mut windows: Vec<ImpactSourceWindow> = Vec::new();
    let mut i: usize = 0;
    assert(windows.deep_view() =~= Seq::empty());
    while i < places.len()
        invariant
            i <= places.len(),
            m == places.deep_view(),
            f == findings.deep_view(),
            windows_of(binding_digest@, f) == windows_from(
                binding_digest@,
                f,
                m,
                windows.deep_view(),
                i as int,
            ),
        decreases places.len() - i,
    {
        let ghost before = windows.deep_view();
        assert(m[i as int] == places@[i as int].deep_view());
        let window = make_window(binding_digest, findings, &places[i])?;
        let ghost added = window.deep_view();
        windows.push(window);
        assert(windows.deep_view() =~= before.push(added));
        i = i + 1;
    }
    Ok(windows)
}

/// The windows of a side.
pub open spec fn windows_on(windows: Seq<ImpactSourceWindowModel>, side: ImpactSide) -> Seq<
    ImpactSourceWindowModel,
> {
    windows.filter(|w: ImpactSourceWindowModel| w.side == side)
}

fn take_windows(windows: &Vec<ImpactSourceWindow>, side: ImpactSide) -> (r: Vec<ImpactSourceWindow>)
    ensures
        r.deep_view() == windows_on(windows.deep_view(), side),
{
    let ghost m = windows.deep_view();
    let ghost wanted = |w: ImpactSourceWindowModel| w.side == side;
    let mut found: Vec<ImpactSourceWindow> = Vec::new();
    let mut i: usize = 0;
    proof {
        reveal(Seq::filter);
        assert(found.deep_view() =~= m.take(0).filter(wanted));
    }
    while i < windows.len()
        invariant
            i <= windows.len(),
            m == windows.deep_view(),
            wanted == (|w: ImpactSourceWindowModel| w.side == side),
            found.deep_view() == m.take(i as int).filter(wanted),
        decreases windows.len() - i,
    {
        let ghost before = found.deep_view();
        proof {
            reveal(Seq::filter);
            assert(m[i as int] == windows@[i as int].deep_view());
            assert(m.take(i + 1).drop_last() =~= m.take(i as int));
        }
        if windows[i].side == side {
            found.push(windows[i].copied());
            assert(found.deep_view() =~= before.push(m[i as int]));
        }
        i = i + 1;
    }
    assert(m.take(m.len() as int) =~= m);
    found
}

/// How many windows fit from a place on: up to the first that would be one too
/// many or would exceed the bytes.
pub open spec fn fitting(
    windows: Seq<ImpactSourceWindowModel>,
    max_windows: usize,
    max_bytes: usize,
    i: int,
    bytes: int,
) -> int
    decreases windows.len() - i,
{
    if i < 0 || i >= windows.len() || i >= max_windows || bytes + windows[i].span_bytes
        > max_bytes {
        i
    } else {
        fitting(windows, max_windows, max_bytes, i + 1, bytes + windows[i].span_bytes)
    }
}

/// The windows in the order in which they are taken, the sides taking turns.
pub open spec fn windows_in_turn(windows: Seq<ImpactSourceWindowModel>) -> Seq<
    ImpactSourceWindowModel,
> {
    fair_order(
        seq![
            windows_on(windows, ImpactSide::Provider),
            windows_on(windows, ImpactSide::Consumer),
        ],
    )
}

/// The windows that are selected for some findings.
pub open spec fn windows_selected(
    binding: Seq<char>,
    findings: Seq<ImpactFindingModel>,
    max_windows: usize,
    max_bytes: usize,
) -> Result<(Seq<ImpactSourceWindowModel>, bool), ErrorModel> {
    match windows_of(binding, findings) {
        Err(e) => Err(e),
        Ok(windows) => {
            let turns = windows_in_turn(windows);
            let n = fitting(turns, max_windows, max_bytes, 0, 0);
            Ok((turns.take(n), n < turns.len()))
        },
    }
}

proof fn fitting_in_range(
    windows: Seq<ImpactSourceWindowModel>,
    max_windows: usize,
    max_bytes: usize,
    i: int,
    bytes: int,
)
    requires
        0 <= i <= windows.len(),
        i <= max_windows,
    ensures
        i <= fitting(windows, max_windows, max_bytes, i, bytes) <= windows.len(),
        fitting(windows, max_windows, max_bytes, i, bytes) <= max_windows,
    decreases windows.len() - i,
{
    if i < windows.len() && i < max_windows && bytes + windows[i].span_bytes <= max_bytes {
        fitting_in_range(windows, max_windows, max_bytes, i + 1, bytes + windows[i].span_bytes);
    }
}

/// Selects the source windows of some findings, and says whether some were left
/// out: the sides take turns, up to the first window that does not fit.
pub fn select_source_windows(
    binding_digest: &str,
    findings: &Vec<ImpactFinding>,
    max_windows: usize,
    max_bytes: usize,
) -> (r: Result<(Vec<ImpactSourceWindow>, bool), ClewError>)
    ensures
        match windows_selected(binding_digest@, findings.deep_view(), max_windows, max_bytes) {
            Ok((windows, truncated)) => r is Ok && r->Ok_0.0.deep_view() == windows && r->Ok_0.1
                == truncated,
            Err(e) => r is Err && r->Err_0.deep_view() == e,
        },
{
    let windows = make_windows(binding_digest, findings)?;
    let ghost all = windows.deep_view();
    let lanes = vec![
        take_windows(&windows, ImpactSide::Provider),
        take_windows(&windows, ImpactSide::Consumer),
    ];
    let turns = take_fairly(&lanes, usize::MAX);
    let ghost m = turns.deep_view();
    proof {
        assert(lanes.deep_view() =~= seq![
            windows_on(all, ImpactSide::Provider),
            windows_on(all, ImpactSide::Consumer),
        ]);
        window_lanes_fit(all, windows);
        assert(m =~= windows_in_turn(all));
    }
    let mut selected: Vec<ImpactSourceWindow> = Vec::new();
    let mut bytes: usize = 0;
    let mut i: usize = 0;
    assert(selected.deep_view() =~= m.take(0));
    while i < turns.len() && i < max_windows && turns[i].span_bytes <= max_bytes && bytes
        <= max_bytes - turns[i].span_bytes
        invariant
            i <= turns.len(),
            i <= max_windows,
            m == turns.deep_view(),
            bytes <= max_bytes,
            selected.deep_view() == m.take(i as int),
            fitting(m, max_windows, max_bytes, 0, 0) == fitting(
                m,
                max_windows,
                max_bytes,
                i as int,
                bytes as int,
            ),
        decreases turns.len() - i,
    {
        assert(m[i as int] == turns@[i as int].deep_view());
        bytes = bytes + turns[i].span_bytes;
        let ghost before = selected.deep_view();
        selected.push(turns[i].copied());
        assert(selected.deep_view() =~= before.push(m[i as int]));
        assert(m.take(i + 1) =~= m.take(i as int).push(m[i as int]));
        i = i + 1;
    }
    proof {
        if i < turns.len() {
            assert(m[i as int] == turns@[i as int].deep_view());
        }
    }
    let truncated = i < turns.len();
    Ok((selected, truncated))
}

proof fn window_sides_partition(windows: Seq<ImpactSourceWindowModel>)
    ensures
        windows_on(windows, ImpactSide::Provider).len() + windows_on(
            windows,
            ImpactSide::Consumer,
        ).len() == windows.len(),
    decreases windows.len(),
{
    reveal(Seq::filter);
    if windows.len() > 0 {
        window_sides_partition(windows.drop_last());
    }
}

proof fn window_lanes_fit(all: Seq<ImpactSourceWindowModel>, windows: Vec<ImpactSourceWindow>)
    requires
        all == windows.deep_view(),
    ensures
        windows_in_turn(all).len() == all.len(),
        windows_in_turn(all).len() <= usize::MAX,
{
    let lanes = seq![
        windows_on(all, ImpactSide::Provider),
        windows_on(all, ImpactSide::Consumer),
    ];
    fair_order_is_complete(lanes);
    window_sides_partition(all);
    reveal_with_fuel(lane_total, 3);
    assert(lane_total(lanes, 2) == all.len());
    assert(windows.len() <= usize::MAX);
}

/// The selected windows keep to their bounds, and are the first of the windows as
/// the sides take turns.
pub proof fn selected_windows_are_bounded(
    binding: Seq<char>,
    findings: Seq<ImpactFindingModel>,
    max_windows: usize,
    max_bytes: usize,
)
    ensures
        match windows_selected(binding, findings, max_windows, max_bytes) {
            Ok((windows, truncated)) => windows.len() <= max_windows && total_span(
                windows,
                windows.len(),
            ) <= max_bytes && windows.is_prefix_of(windows_in_turn(windows_of(binding, findings)->Ok_0))
                && (!truncated ==> windows == windows_in_turn(windows_of(binding, findings)->Ok_0)),
            Err(_) => true,
        },
{
    if let Ok(all) = windows_of(binding, findings) {
        let turns = windows_in_turn(all);
        fitting_in_range(turns, max_windows, max_bytes, 0, 0);
        fitting_keeps_bytes(turns, max_windows, max_bytes, 0, 0);
        let n = fitting(turns, max_windows, max_bytes, 0, 0);
        assert(turns.take(n).len() == n);
        total_span_of_prefix(turns, n, n as nat);
        if n == turns.len() {
            assert(turns.take(n) =~= turns);
        }
    }
}

/// The number of bytes of the first `n` windows.
pub open spec fn total_span(windows: Seq<ImpactSourceWindowModel>, n: nat) -> int
    decreases n,
{
    if n == 0 || n > windows.len() {
        0
    } else {
        total_span(windows, (n - 1) as nat) + windows[n - 1].span_bytes
    }
}

proof fn total_span_of_prefix(windows: Seq<ImpactSourceWindowModel>, k: int, n: nat)
    requires
        n <= k <= windows.len(),
    ensures
        total_span(windows.take(k), n) == total_span(windows, n),
    decreases n,
{
    if n > 0 {
        total_span_of_prefix(windows, k, (n - 1) as nat);
    }
}

proof fn fitting_keeps_bytes(
    windows: Seq<ImpactSourceWindowModel>,
    max_windows: usize,
    max_bytes: usize,
    i: int,
    bytes: int,
)
    requires
        0 <= i <= windows.len(),
        i <= max_windows,
        bytes == total_span(windows, i as nat),
        bytes <= max_bytes,
    ensures
        total_span(windows, fitting(windows, max_windows, max_bytes, i, bytes) as nat) <= max_bytes,
    decreases windows.len() - i,
{
    if i < windows.len() && i < max_windows && bytes + windows[i].span_bytes <= max_bytes {
        assert(total_span(windows, (i + 1) as nat) == bytes + windows[i].span_bytes);
        fitting_keeps_bytes(windows, max_windows, max_bytes, i + 1, bytes + windows[i].span_bytes);
    }
}

/// The outcome for a set of obligations: it must be within the bound.
pub open spec fn obligations_checked(
    obligations: Seq<ImpactObligationModel>,
    max_obligations: usize,
) -> Result<Seq<ImpactObligationModel>, ErrorModel> {
    if obligations.len() > max_obligations {
        exceeded("Kotlin impact obligations exceed the fail-closed 4,096 bound"@)
    } else {
        Ok(obligations)
    }
}

/// Accepts a set of obligations that is within the bound.
pub fn checked_obligations(obligations: Vec<ImpactObligation>, max_obligations: usize) -> (r: Result<
    Vec<ImpactObligation>,
    ClewError,
>)
    ensures
        outcome(r) == obligations_checked(obligations.deep_view(), max_obligations),
{
    if obligations.len() > max_obligations {
        return Err(budget("Kotlin impact obligations exceed the fail-closed 4,096 bound"));
    }
    Ok(obligations)
}

/// The pointers to the facts that the obligations from one on speak of.
pub open spec fn evidence_from(
    obligations: Seq<ImpactObligationModel>,
    candidates: Seq<CandidateModel>,
    before: Seq<ImpactFactPointerModel>,
    i: int,
) -> Result<Seq<ImpactFactPointerModel>, ErrorModel>
    decreases obligations.len() - i,
{
    if i < 0 || i >= obligations.len() {
        Ok(before)
    } else {
        match obligations[i].fact_id {
            None => evidence_from(obligations, candidates, before, i + 1),
            Some(fact_id) => match record_at::<Candidate>(candidates, fact_id) {
                None => corrupted("fact-specific impact obligation has no candidate evidence"@),
                Some(c) => evidence_from(
                    obligations,
                    candidates,
                    entered::<ImpactFactPointer>(before, pointer_to(c)),
                    i + 1,
                ),
            },
        }
    }
}

/// The pointers to the facts that some obligations speak of, in the order of the
/// facts, each once.
pub open spec fn evidence_obliged(
    obligations: Seq<ImpactObligationModel>,
    candidates: Seq<CandidateModel>,
) -> Result<Seq<ImpactFactPointerModel>, ErrorModel> {
    evidence_from(obligations, candidates, Seq::empty(), 0)
}

/// Finds the facts that some obligations speak of.
pub fn obligation_evidence(
    obligations: &Vec<ImpactObligation>,
    candidates: &Vec<Candidate>,
) -> (r: Result<Vec<ImpactFactPointer>, ClewError>)
    ensures
        outcome(r) == evidence_obliged(obligations.deep_view(), candidates.deep_view()),
{
    let ghost m = obligations.deep_view();
    let ghost c = candidates.deep_view();
    let mut pointers: Vec<ImpactFactPointer> = Vec::new();
    let mut i: usize = 0;
    assert(pointers.deep_view() =~= Seq::empty());
    while i < obligations.len()
        invariant
            i <= obligations.len(),
            m == obligations.deep_view(),
            c == candidates.deep_view(),
            evidence_obliged(m, c) == evidence_from(m, c, pointers.deep_view(), i as int),
        decreases obligations.len() - i,
    {
        assert(m[i as int] == obligations@[i as int].deep_view());
        if let Some(fact_id) = &obligations[i].fact_id {
            match find_record(candidates, fact_id.as_str()) {
                None => {
                    return Err(
                        corrupt("fact-specific impact obligation has no candidate evidence"),
                    );
                },
                Some(candidate) => {
                    enter(&mut pointers, fact_pointer(candidate));
                },
            }
        }
        i = i + 1;
    }
    Ok(pointers)
}

/// The obligations before the selection, in the order in which they arise.
pub open spec fn obligations_arising(
    set: PreparedCallableFactSetModel,
    scope: ImpactScope,
    subject: KotlinImpactSubjectModel,
    candidates: Seq<CandidateModel>,
) -> Seq<ImpactObligationModel> {
    let a = member_obligations(
        Seq::empty(),
        scope.provider,
        subject,
        of_side(candidates, ImpactSide::Provider),
    );
    let b = member_obligations(
        a,
        scope.consumer,
        subject,
        of_side(candidates, ImpactSide::Consumer),
    );
    let c = added_if(
        b,
        set.authority.completeness.certainty == CallableFactSetCertainty::Unsure,
        about_all(ImpactObligationCode::VerifyFactSetBoundaryScope),
    );
    let d = added_if(
        c,
        scope.pair.relationship_authority
            != RelationshipAuthority::VerifiedSameSnapshotCompilationDependency,
        about_all(ImpactObligationCode::VerifyRelationshipAuthority),
    );
    let e = added_if(
        d,
        subject is Token,
        about_all(ImpactObligationCode::ResolveNavigationSubject),
    );
    facts_obliged(e, candidates, candidates.len())
}

/// Whether two candidates have the same fact.
pub open spec fn repeats_fact(candidates: Seq<CandidateModel>) -> bool {
    exists|i: int, j: int|
        0 <= i < j < candidates.len() && (#[trigger] candidates[i]).fact.fact_id() == (
        #[trigger] candidates[j]).fact.fact_id()
}

fn has_repeated_fact(candidates: &Vec<Candidate>) -> (r: bool)
    ensures
        r == repeats_fact(candidates.deep_view()),
{
    let ghost m = candidates.deep_view();
    let mut j: usize = 0;
    while j < candidates.len()
        invariant
            j <= candidates.len(),
            m == candidates.deep_view(),
            forall|a: int, b: int|
                0 <= a < b < j ==> (#[trigger] m[a]).fact.fact_id() != (
                #[trigger] m[b]).fact.fact_id(),
        decreases candidates.len() - j,
    {
        assert(m[j as int] == candidates@[j as int].deep_view());
        let mut i: usize = 0;
        while i < j
            invariant
                i <= j,
                j < candidates.len(),
                m == candidates.deep_view(),
                m[j as int] == candidates@[j as int].deep_view(),
                forall|a: int|
                    0 <= a < i ==> (#[trigger] m[a]).fact.fact_id() != m[j as int].fact.fact_id(),
            decreases j - i,
        {
            assert(m[i as int] == candidates@[i as int].deep_view());
            if same_text(
                candidates[i].fact.fact_id().as_str(),
                candidates[j].fact.fact_id().as_str(),
            ) {
                return true;
            }
            i = i + 1;
        }
        j = j + 1;
    }
    false
}

/// The findings of a side.
pub open spec fn findings_on(findings: Seq<ImpactFindingModel>, side: ImpactSide) -> Seq<
    ImpactFindingModel,
> {
    findings.filter(|f: ImpactFindingModel| f.side == side)
}

fn count_findings(findings: &Vec<ImpactFinding>, side: ImpactSide) -> (r: usize)
    ensures
        r == findings_on(findings.deep_view(), side).len(),
{
    let ghost m = findings.deep_view();
    let ghost wanted = |f: ImpactFindingModel| f.side == side;
    let mut n: usize = 0;
    let mut i: usize = 0;
    proof {
        reveal(Seq::filter);
        assert(m.take(0).filter(wanted) =~= Seq::empty());
    }
    while i < findings.len()
        invariant
            n <= i <= findings.len(),
            m == findings.deep_view(),
            wanted == (|f: ImpactFindingModel| f.side == side),
            n == m.take(i as int).filter(wanted).len(),
        decreases findings.len() - i,
    {
        proof {
            reveal(Seq::filter);
            assert(m[i as int] == findings@[i as int].deep_view());
            assert(m.take(i + 1).drop_last() =~= m.take(i as int));
        }
        if findings[i].side == side {
            n = n + 1;
        }
        i = i + 1;
    }
    assert(m.take(m.len() as int) =~= m);
    n
}

/// What the binding digest of an impact is taken of.
pub open spec fn binding_material(
    set: PreparedCallableFactSetModel,
    request: ThreadImpactRequestModel,
    pair: CallablePairBindingModel,
) -> JsonModel {
    JsonModel::object().with(
        "schema"@,
        JsonModel::Str("codeclew-kotlin-thread-impact-binding/1.0"@),
    ).with("factSetAuthorityDigest"@, JsonModel::Str(set.authority.authority_digest)).with(
        "request"@,
        <ThreadImpactRequest as Record>::json(request),
    ).with("pair"@, <CallablePairBinding as Record>::json(pair))
}

fn write_binding_material(
    prepared: &PreparedCallableFactSet,
    request: &ThreadImpactRequest,
    pair: &CallablePairBinding,
) -> (r: Json)
    ensures
        r.deep_view() == binding_material(
            prepared.deep_view(),
            request.deep_view(),
            pair.deep_view(),
        ),
{
    Json::object().with(
        "schema",
        Json::Str("codeclew-kotlin-thread-impact-binding/1.0".to_owned()),
    ).with(
        "factSetAuthorityDigest",
        Json::Str(prepared.authority.authority_digest.clone()),
    ).with("request", request.to_json()).with("pair", pair.to_json())
}

/// The obligations with the one to narrow or expand the query, where something was
/// left out.
pub open spec fn narrowed(obligations: Seq<ImpactObligationModel>, truncated: bool) -> Seq<
    ImpactObligationModel,
> {
    if truncated {
        order::entered::<ImpactObligation>(
            obligations,
            about_all(ImpactObligationCode::NarrowOrExpandQuery),
        )
    } else {
        obligations
    }
}

fn narrow(obligations: &mut Vec<ImpactObligation>, truncated: bool)
    ensures
        final(obligations).deep_view() == narrowed(old(obligations).deep_view(), truncated),
{
    if truncated {
        order::enter(
            obligations,
            obligation(ImpactObligationCode::NarrowOrExpandQuery, None, None, None),
        );
    }
}

/// How certain an impact is: it is verified only where the relationship is, the
/// shapes compare exactly, nothing is left to be done and nothing was left out.
pub open spec fn certainty_of(
    relationship: RelationshipAuthority,
    shape: ImpactShapeStatus,
    obligations: nat,
    findings_truncated: bool,
    windows_truncated: bool,
) -> ImpactCertainty {
    if relationship == RelationshipAuthority::VerifiedSameSnapshotCompilationDependency && (shape
        == ImpactShapeStatus::ExactProjectedShapeEqual || shape
        == ImpactShapeStatus::ExactProjectedShapeDelta) && obligations == 0 && !findings_truncated
        && !windows_truncated {
        ImpactCertainty::Verified
    } else {
        ImpactCertainty::Unsure
    }
}

/// The parts of a selection that are worked out before it is put together.
pub struct SelectionParts {
    pub binding_digest: Seq<char>,
    pub provider: ImpactMemberResultModel,
    pub consumer: ImpactMemberResultModel,
    pub shape_status: ImpactShapeStatus,
    pub findings: Seq<ImpactFindingModel>,
    pub findings_truncated: bool,
    pub source_windows: Seq<ImpactSourceWindowModel>,
    pub source_windows_truncated: bool,
    pub obligations: Seq<ImpactObligationModel>,
    pub obligation_evidence: Seq<ImpactFactPointerModel>,
}

/// The selection that some parts make.
pub open spec fn composed(
    set: PreparedCallableFactSetModel,
    request: ThreadImpactRequestModel,
    scope: ImpactScope,
    trace: CallableQueryTraceModel,
    p: SelectionParts,
) -> ImpactQuerySelectionModel {
    ImpactQuerySelectionModel {
        schema: "codeclew-kotlin-thread-impact-selection/1.0"@,
        binding_digest: p.binding_digest,
        fact_set_authority_digest: set.authority.authority_digest,
        pair: scope.pair,
        subject: request.subject,
        query_index_ref: set.authority.query_index_ref,
        fact_set_evidence_ref: set.authority.evidence_ref,
        consulted_query_shard_refs: trace.query_shard_refs,
        relationship_authority: scope.pair.relationship_authority,
        shape_status: p.shape_status,
        certainty: certainty_of(
            scope.pair.relationship_authority,
            p.shape_status,
            p.obligations.len(),
            p.findings_truncated,
            p.source_windows_truncated,
        ),
        members: seq![
            ImpactMemberResultModel {
                selected_finding_count: findings_on(p.findings, p.provider.side).len() as usize,
                ..p.provider
            },
            ImpactMemberResultModel {
                selected_finding_count: findings_on(p.findings, p.consumer.side).len() as usize,
                ..p.consumer
            },
        ],
        findings: p.findings,
        obligation_evidence: p.obligation_evidence,
        source_windows: p.source_windows,
        obligations: p.obligations,
        findings_truncated: p.findings_truncated,
        source_windows_truncated: p.source_windows_truncated,
    }
}

/// What is selected for the candidates of a normalized request.
pub open spec fn parts_selected(
    set: PreparedCallableFactSetModel,
    request: ThreadImpactRequestModel,
    scope: ImpactScope,
    candidates: Seq<CandidateModel>,
) -> Result<SelectionParts, ErrorModel> {
    let budgets = request.budgets;
    let binding = json_digest(binding_material(set, request, scope.pair));
    let provider = member_analyzed(
        ImpactSide::Provider,
        scope.provider,
        request.subject,
        of_side(candidates, ImpactSide::Provider),
    );
    let consumer = member_analyzed(
        ImpactSide::Consumer,
        scope.consumer,
        request.subject,
        of_side(candidates, ImpactSide::Consumer),
    );
    let arising = order::first_table::<ImpactObligation>(
        obligations_arising(set, scope, request.subject, candidates),
    );
    if arising.len() > budgets.max_obligations {
        exceeded("Kotlin impact obligations exceed the fail-closed 4,096 bound"@)
    } else if repeats_fact(candidates) {
        corrupted("impact candidate fact identity is not unique"@)
    } else {
        let findings = findings_of(
            binding,
            fairly_taken(candidates, budgets.max_findings),
            request.subject,
        );
        let findings_truncated = candidates.len() > budgets.max_findings;
        match windows_selected(
            binding,
            findings,
            budgets.max_source_windows,
            budgets.max_source_window_bytes,
        ) {
            Err(e) => Err(e),
            Ok((source_windows, source_windows_truncated)) => match obligations_checked(
                narrowed(narrowed(arising, findings_truncated), source_windows_truncated),
                budgets.max_obligations,
            ) {
                Err(e) => Err(e),
                Ok(obligations) => match evidence_obliged(obligations, candidates) {
                    Err(e) => Err(e),
                    Ok(obligation_evidence) => Ok(
                        SelectionParts {
                            binding_digest: binding,
                            provider,
                            consumer,
                            shape_status: shapes_compared(request.subject, provider, consumer),
                            findings,
                            findings_truncated,
                            source_windows,
                            source_windows_truncated,
                            obligations,
                            obligation_evidence,
                        },
                    ),
                },
            },
        }
    }
}

/// What is selected for a normalized request, given what the query found.
#[verifier::opaque]
pub open spec fn selection_of(
    set: PreparedCallableFactSetModel,
    request: ThreadImpactRequestModel,
    trace: CallableQueryTraceModel,
) -> Result<ImpactQuerySelectionModel, ErrorModel> {
    match scoped(set, request) {
        Err(e) => Err(e),
        Ok(scope) => match parts_selected(
            set,
            request,
            scope,
            candidates_of(scope, request.subject, trace.matched_fact_ids),
        ) {
            Err(e) => Err(e),
            Ok(parts) => Ok(composed(set, request, scope, trace, parts)),
        },
    }
}

fn arising_obligations(
    prepared: &PreparedCallableFactSet,
    pair: &CallablePairBinding,
    subject: &KotlinImpactSubject,
    candidates: &Vec<Candidate>,
    obligations: &mut Vec<ImpactObligation>,
)
    ensures
        final(obligations).deep_view() == facts_obliged(
            added_if(
                added_if(
                    added_if(
                        old(obligations).deep_view(),
                        prepared.deep_view().authority.completeness.certainty
                            == CallableFactSetCertainty::Unsure,
                        about_all(ImpactObligationCode::VerifyFactSetBoundaryScope),
                    ),
                    pair.deep_view().relationship_authority
                        != RelationshipAuthority::VerifiedSameSnapshotCompilationDependency,
                    about_all(ImpactObligationCode::VerifyRelationshipAuthority),
                ),
                subject.deep_view() is Token,
                about_all(ImpactObligationCode::ResolveNavigationSubject),
            ),
            candidates.deep_view(),
            candidates@.len(),
        ),
{
    if prepared.authority.completeness.certainty == CallableFactSetCertainty::Unsure {
        add_obligation(
            obligations,
            ImpactObligationCode::VerifyFactSetBoundaryScope,
            None,
            None,
            None,
        );
    }
    if pair.relationship_authority
        != RelationshipAuthority::VerifiedSameSnapshotCompilationDependency {
        add_obligation(
            obligations,
            ImpactObligationCode::VerifyRelationshipAuthority,
            None,
            None,
            None,
        );
    }
    if subject.kind() == ImpactSubjectKind::Token {
        add_obligation(
            obligations,
            ImpactObligationCode::ResolveNavigationSubject,
            None,
            None,
            None,
        );
    }
    add_fact_obligations(candidates, obligations);
}

fn certainty(
    relationship: RelationshipAuthority,
    shape: ImpactShapeStatus,
    obligations: usize,
    findings_truncated: bool,
    windows_truncated: bool,
) -> (r: ImpactCertainty)
    ensures
        r == certainty_of(
            relationship,
            shape,
            obligations as nat,
            findings_truncated,
            windows_truncated,
        ),
{
    if relationship == RelationshipAuthority::VerifiedSameSnapshotCompilationDependency && (shape
        == ImpactShapeStatus::ExactProjectedShapeEqual || shape
        == ImpactShapeStatus::ExactProjectedShapeDelta) && obligations == 0 && !findings_truncated
        && !windows_truncated {
        ImpactCertainty::Verified
    } else {
        ImpactCertainty::Unsure
    }
}

/// What [`SelectionParts`] is the model of.
struct SelectedParts {
    binding_digest: String,
    provider: ImpactMemberResult,
    consumer: ImpactMemberResult,
    shape_status: ImpactShapeStatus,
    findings: Vec<ImpactFinding>,
    findings_truncated: bool,
    source_windows: Vec<ImpactSourceWindow>,
    source_windows_truncated: bool,
    obligations: Vec<ImpactObligation>,
    obligation_evidence: Vec<ImpactFactPointer>,
}

impl DeepView for SelectedParts {
    type V = SelectionParts;

    closed spec fn deep_view(&self) -> SelectionParts {
        SelectionParts {
            binding_digest: self.binding_digest@,
            provider: self.provider.deep_view(),
            consumer: self.consumer.deep_view(),
            shape_status: self.shape_status,
            findings: self.findings.deep_view(),
            findings_truncated: self.findings_truncated,
            source_windows: self.source_windows.deep_view(),
            source_windows_truncated: self.source_windows_truncated,
            obligations: self.obligations.deep_view(),
            obligation_evidence: self.obligation_evidence.deep_view(),
        }
    }
}

fn select_parts(
    prepared: &PreparedCallableFactSet,
    request: &ThreadImpactRequest,
    pair: &CallablePairBinding,
    provider_member: &CallableMemberBinding,
    consumer_member: &CallableMemberBinding,
    candidates: &Vec<Candidate>,
    Ghost(scope): Ghost<ImpactScope>,
) -> (r: Result<SelectedParts, ClewError>)
    requires
        scope.pair == pair.deep_view(),
        scope.provider == provider_member.deep_view(),
        scope.consumer == consumer_member.deep_view(),
    ensures
        outcome(r) == parts_selected(
            prepared.deep_view(),
            request.deep_view(),
            scope,
            candidates.deep_view(),
        ),
{
    let binding_digest = hash(&write_binding_material(prepared, request, pair));
    let mut arising: Vec<ImpactObligation> = Vec::new();
    assert(arising.deep_view() =~= Seq::empty());
    let provider = analyze_member(
        ImpactSide::Provider,
        provider_member,
        &request.subject,
        &take_side(candidates, ImpactSide::Provider),
        &mut arising,
    );
    let consumer = analyze_member(
        ImpactSide::Consumer,
        consumer_member,
        &request.subject,
        &take_side(candidates, ImpactSide::Consumer),
        &mut arising,
    );
    let shape = shape_status(&request.subject, &provider, &consumer);
    arising_obligations(prepared, pair, &request.subject, candidates, &mut arising);
    assert(arising.deep_view() == obligations_arising(
        prepared.deep_view(),
        scope,
        request.deep_view().subject,
        candidates.deep_view(),
    ));
    let mut obligations = order::table_of(&arising);
    if obligations.len() > request.budgets.max_obligations {
        return Err(budget("Kotlin impact obligations exceed the fail-closed 4,096 bound"));
    }
    if has_repeated_fact(candidates) {
        return Err(corrupt("impact candidate fact identity is not unique"));
    }
    let (selected, findings_truncated) = fair_take_candidates(
        candidates,
        request.budgets.max_findings,
    );
    narrow(&mut obligations, findings_truncated);
    let findings = make_findings(&binding_digest, &selected, &request.subject);
    let (source_windows, source_windows_truncated) = select_source_windows(
        binding_digest.as_str(),
        &findings,
        request.budgets.max_source_windows,
        request.budgets.max_source_window_bytes,
    )?;
    narrow(&mut obligations, source_windows_truncated);
    let obligations = checked_obligations(obligations, request.budgets.max_obligations)?;
    let obligation_evidence = obligation_evidence(&obligations, candidates)?;
    Ok(
        SelectedParts {
            binding_digest,
            provider,
            consumer,
            shape_status: shape,
            findings,
            findings_truncated,
            source_windows,
            source_windows_truncated,
            obligations,
            obligation_evidence,
        },
    )
}

fn compose(
    prepared: &PreparedCallableFactSet,
    request: &ThreadImpactRequest,
    pair: CallablePairBinding,
    trace: &CallableQueryTrace,
    parts: SelectedParts,
    Ghost(scope): Ghost<ImpactScope>,
) -> (r: ImpactQuerySelection)
    requires
        scope.pair == pair.deep_view(),
        parts.provider.side == ImpactSide::Provider,
        parts.consumer.side == ImpactSide::Consumer,
    ensures
        r.deep_view() == composed(
            prepared.deep_view(),
            request.deep_view(),
            scope,
            trace.deep_view(),
            parts.deep_view(),
        ),
{
    let settled = certainty(
        pair.relationship_authority,
        parts.shape_status,
        parts.obligations.len(),
        parts.findings_truncated,
        parts.source_windows_truncated,
    );
    let ghost result = composed(
        prepared.deep_view(),
        request.deep_view(),
        scope,
        trace.deep_view(),
        parts.deep_view(),
    );
    let provider_count: usize = count_findings(&parts.findings, ImpactSide::Provider);
    let consumer_count: usize = count_findings(&parts.findings, ImpactSide::Consumer);
    let mut provider = parts.provider;
    let mut consumer = parts.consumer;
    provider.selected_finding_count = provider_count;
    consumer.selected_finding_count = consumer_count;
    let members = vec![provider, consumer];
    assert(members.deep_view() =~= result.members);
    ImpactQuerySelection {
        schema: "codeclew-kotlin-thread-impact-selection/1.0".to_owned(),
        binding_digest: parts.binding_digest,
        fact_set_authority_digest: prepared.authority.authority_digest.clone(),
        relationship_authority: pair.relationship_authority,
        pair,
        subject: request.subject.copied(),
        query_index_ref: prepared.authority.query_index_ref.copied(),
        fact_set_evidence_ref: prepared.authority.evidence_ref.copied(),
        consulted_query_shard_refs: trace.query_shard_refs.copied(),
        shape_status: parts.shape_status,
        certainty: settled,
        members,
        findings: parts.findings,
        obligation_evidence: parts.obligation_evidence,
        source_windows: parts.source_windows,
        obligations: parts.obligations,
        findings_truncated: parts.findings_truncated,
        source_windows_truncated: parts.source_windows_truncated,
    }
}

/// Selects from the facts for a normalized request, given what the query found.
pub fn select_verified(
    prepared: &PreparedCallableFactSet,
    request: &ThreadImpactRequest,
    trace: &CallableQueryTrace,
) -> (r: Result<ImpactQuerySelection, ClewError>)
    ensures
        outcome(r) == selection_of(
            prepared.deep_view(),
            request.deep_view(),
            trace.deep_view(),
        ),
{
    proof {
        reveal(selection_of);
    }
    let pair = selected_pair(prepared, request.pair_id.as_str())?;
    let (provider_member, consumer_member) = pair_members(prepared, &pair)?;
    let entries = fact_entries(prepared)?;
    let lookup = subject_lookup(&request.subject, &provider_member, &consumer_member)?;
    let ghost scope = ImpactScope {
        pair: pair.deep_view(),
        provider: provider_member.deep_view(),
        consumer: consumer_member.deep_view(),
        entries: entries.deep_view(),
        lookup: lookup.deep_view(),
    };
    assert(scoped(prepared.deep_view(), request.deep_view()) == Ok::<ImpactScope, ErrorModel>(scope));
    let mut unsorted: Vec<Candidate> = Vec::new();
    assert(unsorted.deep_view() =~= Seq::empty());
    collect_candidates(
        ImpactSide::Provider,
        &provider_member.member_alias,
        &request.subject,
        &entries,
        &trace.matched_fact_ids,
        &mut unsorted,
    );
    collect_candidates(
        ImpactSide::Consumer,
        &consumer_member.member_alias,
        &request.subject,
        &entries,
        &trace.matched_fact_ids,
        &mut unsorted,
    );
    let candidates = order::sort(&unsorted);
    proof {
        let first = side_candidates(
            ImpactSide::Provider,
            scope.provider.member_alias,
            request.deep_view().subject,
            scope.entries,
            trace.deep_view().matched_fact_ids,
            scope.entries.len(),
        );
        assert(Seq::<CandidateModel>::empty() + first =~= first);
    }
    let parts = select_parts(
        prepared,
        request,
        &pair,
        &provider_member,
        &consumer_member,
        &candidates,
        Ghost(scope),
    )?;
    Ok(compose(prepared, request, pair, trace, parts, Ghost(scope)))
}

/// What is selected for a request, given what the query found.
pub open spec fn impact_selected(
    set: PreparedCallableFactSetModel,
    request: ThreadImpactRequestModel,
    trace: CallableQueryTraceModel,
) -> Result<ImpactQuerySelectionModel, ErrorModel> {
    match request_normalized(set, request) {
        Err(e) => Err(e),
        Ok(normal) => selection_of(set, normal, trace),
    }
}

/// Selects a deterministic, fair, bounded set of evidence from a fact set, given what
/// verifying it refused, if anything, and what the query of [`plan_query`] found.
pub fn select(
    prepared: &PreparedCallableFactSet,
    verified: &Option<ClewError>,
    request: &ThreadImpactRequest,
    trace: &CallableQueryTrace,
) -> (r: Result<ImpactQuerySelection, ClewError>)
    ensures
        outcome(r) == (match accepted(verified.deep_view()) {
            Err(e) => Err(e),
            Ok(_) => impact_selected(
                prepared.deep_view(),
                request.deep_view(),
                trace.deep_view(),
            ),
        }),
{
    accept(verified)?;
    let normal = normalize_request(prepared, request)?;
    select_verified(prepared, &normal, trace)
}

/// What the closure of an impact is refused with.
pub open spec fn impact_closure_texts() -> ClosureTexts {
    ClosureTexts {
        invalid: "impact closure contains an invalid CAS reference"@,
        conflict: "impact closure repeats a digest with different authority"@,
        unrepresentable: "impact retained object size is not representable"@,
        overflow: "impact retained byte count overflowed"@,
        exceeded: "Kotlin impact selected proof exceeds the 64 MiB retained bound"@,
    }
}

/// Closes some references within a number of bytes.
pub fn canonical_cas_closure(references: &Vec<CasObject>, max_bytes: usize) -> (r: Result<
    (Vec<CasObject>, usize),
    ClewError,
>)
    ensures
        match closed(references.deep_view(), max_bytes, impact_closure_texts()) {
            Ok((closure, bytes)) => r is Ok && r->Ok_0.0.deep_view() == closure && r->Ok_0.1
                == bytes,
            Err(e) => r is Err && r->Err_0.deep_view() == e,
        },
{
    close(
        references,
        max_bytes,
        &ClosureMessages {
            invalid: "impact closure contains an invalid CAS reference",
            conflict: "impact closure repeats a digest with different authority",
            unrepresentable: "impact retained object size is not representable",
            overflow: "impact retained byte count overflowed",
            exceeded: "Kotlin impact selected proof exceeds the 64 MiB retained bound",
        },
    )
}

/// Accepts a number of new objects that is within the bound.
pub fn checked_derived_cas_object_count(count: usize, max_count: usize) -> (r: Result<
    usize,
    ClewError,
>)
    ensures
        outcome(r) == (if count > max_count {
            exceeded("Kotlin impact derived CAS object count exceeds the frozen bound"@)
        } else {
            Ok(count)
        }),
{
    if count > max_count {
        return Err(budget("Kotlin impact derived CAS object count exceeds the frozen bound"));
    }
    Ok(count)
}

/// The references of the first `n` compilations of a member.
pub open spec fn generations_of(member: CallableMemberBindingModel, n: nat) -> Seq<CasObjectModel>
    decreases n,
{
    if n == 0 || n > member.compilations.len() {
        Seq::empty()
    } else {
        generations_of(member, (n - 1) as nat).push(member.compilations[n - 1].generation_ref)
    }
}

/// What a member contributes to a proof.
pub open spec fn member_proof(member: CallableMemberBindingModel) -> Seq<CasObjectModel> {
    seq![member.snapshot_ref] + generations_of(member, member.compilations.len())
}

/// What a fact contributes to a proof.
pub open spec fn pointer_proof(pointer: ImpactFactPointerModel) -> Seq<CasObjectModel> {
    let fact = seq![
        pointer.fact_shard_ref,
        pointer.provenance.generation_ref,
        pointer.provenance.input_payload_ref,
    ];
    match pointer.provenance.source {
        Some(source) => fact.push(source.content_ref),
        None => fact,
    }
}

/// What the first `n` facts contribute to a proof.
pub open spec fn pointers_proof(pointers: Seq<ImpactFactPointerModel>, n: nat) -> Seq<CasObjectModel>
    decreases n,
{
    if n == 0 || n > pointers.len() {
        Seq::empty()
    } else {
        pointers_proof(pointers, (n - 1) as nat) + pointer_proof(pointers[n - 1])
    }
}

/// The facts of some findings.
pub open spec fn evidence_of(findings: Seq<ImpactFindingModel>) -> Seq<ImpactFactPointerModel> {
    Seq::new(findings.len(), |i: int| findings[i].evidence)
}

/// What a selection rests on.
pub open spec fn proof_of(
    selection: ImpactQuerySelectionModel,
    provider: CallableMemberBindingModel,
    consumer: CallableMemberBindingModel,
) -> Seq<CasObjectModel> {
    let members = member_proof(provider) + member_proof(consumer);
    let dependency = match selection.pair.dependency_evidence_ref {
        Some(reference) => members.push(reference),
        None => members,
    };
    dependency.push(selection.query_index_ref).push(selection.fact_set_evidence_ref)
        + selection.consulted_query_shard_refs + pointers_proof(
        evidence_of(selection.findings),
        selection.findings.len(),
    ) + pointers_proof(selection.obligation_evidence, selection.obligation_evidence.len())
}

fn push_reference(closure: &mut Vec<CasObject>, reference: &CasObject)
    ensures
        final(closure).deep_view() == old(closure).deep_view().push(reference.deep_view()),
{
    let ghost before = closure.deep_view();
    closure.push(reference.copied());
    assert(closure.deep_view() =~= before.push(reference.deep_view()));
}

fn push_member(closure: &mut Vec<CasObject>, member: &CallableMemberBinding)
    ensures
        final(closure).deep_view() == old(closure).deep_view() + member_proof(member.deep_view()),
{
    let ghost start = closure.deep_view();
    let ghost m = member.deep_view();
    push_reference(closure, &member.snapshot_ref);
    let compilations = &member.compilations;
    let mut i: usize = 0;
    assert(closure.deep_view() =~= start + (seq![m.snapshot_ref] + generations_of(m, 0)));
    while i < compilations.len()
        invariant
            i <= compilations.len(),
            m == member.deep_view(),
            m.compilations == compilations.deep_view(),
            closure.deep_view() == start + (seq![m.snapshot_ref] + generations_of(m, i as nat)),
        decreases compilations.len() - i,
    {
        let ghost before = closure.deep_view();
        assert(m.compilations[i as int] == compilations@[i as int].deep_view());
        push_reference(closure, &compilations[i].generation_ref);
        assert(closure.deep_view() =~= start + (seq![m.snapshot_ref] + generations_of(
            m,
            (i + 1) as nat,
        )));
        i = i + 1;
    }
}

fn push_pointer(closure: &mut Vec<CasObject>, pointer: &ImpactFactPointer)
    ensures
        final(closure).deep_view() == old(closure).deep_view() + pointer_proof(
            pointer.deep_view(),
        ),
{
    let ghost start = closure.deep_view();
    push_reference(closure, &pointer.fact_shard_ref);
    push_reference(closure, &pointer.provenance.generation_ref);
    push_reference(closure, &pointer.provenance.input_payload_ref);
    if let Some(source) = &pointer.provenance.source {
        push_reference(closure, &source.content_ref);
    }
    assert(closure.deep_view() =~= start + pointer_proof(pointer.deep_view()));
}

fn push_references(closure: &mut Vec<CasObject>, references: &Vec<CasObject>)
    ensures
        final(closure).deep_view() == old(closure).deep_view() + references.deep_view(),
{
    let ghost start = closure.deep_view();
    let ghost m = references.deep_view();
    let mut i: usize = 0;
    assert(closure.deep_view() =~= start + m.take(0));
    while i < references.len()
        invariant
            i <= references.len(),
            m == references.deep_view(),
            closure.deep_view() == start + m.take(i as int),
        decreases references.len() - i,
    {
        assert(m[i as int] == references@[i as int].deep_view());
        push_reference(closure, &references[i]);
        assert(m.take(i + 1) =~= m.take(i as int).push(m[i as int]));
        assert(start + m.take(i + 1) =~= (start + m.take(i as int)).push(m[i as int]));
        i = i + 1;
    }
    assert(m.take(m.len() as int) =~= m);
}

fn push_findings(closure: &mut Vec<CasObject>, findings: &Vec<ImpactFinding>)
    ensures
        final(closure).deep_view() == old(closure).deep_view() + pointers_proof(
            evidence_of(findings.deep_view()),
            findings@.len(),
        ),
{
    let ghost start = closure.deep_view();
    let ghost m = evidence_of(findings.deep_view());
    let mut i: usize = 0;
    assert(closure.deep_view() =~= start + pointers_proof(m, 0));
    while i < findings.len()
        invariant
            i <= findings.len(),
            m == evidence_of(findings.deep_view()),
            closure.deep_view() == start + pointers_proof(m, i as nat),
        decreases findings.len() - i,
    {
        assert(m[i as int] == findings@[i as int].deep_view().evidence);
        push_pointer(closure, &findings[i].evidence);
        assert(closure.deep_view() =~= start + pointers_proof(m, (i + 1) as nat));
        i = i + 1;
    }
}

fn push_pointers(closure: &mut Vec<CasObject>, pointers: &Vec<ImpactFactPointer>)
    ensures
        final(closure).deep_view() == old(closure).deep_view() + pointers_proof(
            pointers.deep_view(),
            pointers@.len(),
        ),
{
    let ghost start = closure.deep_view();
    let ghost m = pointers.deep_view();
    let mut i: usize = 0;
    assert(closure.deep_view() =~= start + pointers_proof(m, 0));
    while i < pointers.len()
        invariant
            i <= pointers.len(),
            m == pointers.deep_view(),
            closure.deep_view() == start + pointers_proof(m, i as nat),
        decreases pointers.len() - i,
    {
        assert(m[i as int] == pointers@[i as int].deep_view());
        push_pointer(closure, &pointers[i]);
        assert(closure.deep_view() =~= start + pointers_proof(m, (i + 1) as nat));
        i = i + 1;
    }
}

fn selected_proof_closure(
    selection: &ImpactQuerySelection,
    provider: &CallableMemberBinding,
    consumer: &CallableMemberBinding,
) -> (r: Vec<CasObject>)
    ensures
        r.deep_view() == proof_of(
            selection.deep_view(),
            provider.deep_view(),
            consumer.deep_view(),
        ),
{
    let mut closure: Vec<CasObject> = Vec::new();
    assert(closure.deep_view() =~= Seq::empty());
    push_member(&mut closure, provider);
    assert(closure.deep_view() =~= member_proof(provider.deep_view()));
    push_member(&mut closure, consumer);
    if let Some(reference) = &selection.pair.dependency_evidence_ref {
        push_reference(&mut closure, reference);
    }
    push_reference(&mut closure, &selection.query_index_ref);
    push_reference(&mut closure, &selection.fact_set_evidence_ref);
    push_references(&mut closure, &selection.consulted_query_shard_refs);
    push_findings(&mut closure, &selection.findings);
    push_pointers(&mut closure, &selection.obligation_evidence);
    closure
}

/// What is shown of some findings.
pub open spec fn shown_findings(findings: Seq<ImpactFindingModel>) -> Seq<ImpactPublicFindingModel> {
    Seq::new(findings.len(), |i: int| shown_finding(findings[i]))
}

fn public_findings(findings: &Vec<ImpactFinding>) -> (r: Vec<ImpactPublicFinding>)
    ensures
        r.deep_view() == shown_findings(findings.deep_view()),
{
    let ghost m = findings.deep_view();
    let mut shown: Vec<ImpactPublicFinding> = Vec::new();
    let mut i: usize = 0;
    while i < findings.len()
        invariant
            i <= findings.len(),
            m == findings.deep_view(),
            shown@.len() == i,
            forall|k: int|
                0 <= k < i ==> (#[trigger] shown@[k]).deep_view() == shown_finding(m[k]),
        decreases findings.len() - i,
    {
        assert(m[i as int] == findings@[i as int].deep_view());
        shown.push(public_finding(&findings[i]));
        i = i + 1;
    }
    assert(shown.deep_view() =~= shown_findings(m));
    shown
}

/// What is shown of a member.
pub open spec fn shown_member(member: ImpactMemberResultModel) -> ImpactMemberProjectionModel {
    ImpactMemberProjectionModel {
        side: member.side,
        member_alias: member.member_alias,
        observed: member.observed,
        matched_finding_count: member.matched_finding_count,
        selected_finding_count: member.selected_finding_count,
        declaration_count: member.declaration_count,
        use_count: member.use_count,
        boundary_count: member.boundary_count,
        exact_shape_digest: member.exact_shape_digest,
    }
}

/// What is shown of some members.
pub open spec fn shown_members(members: Seq<ImpactMemberResultModel>) -> Seq<
    ImpactMemberProjectionModel,
> {
    Seq::new(members.len(), |i: int| shown_member(members[i]))
}

fn project_members(members: &Vec<ImpactMemberResult>) -> (r: Vec<ImpactMemberProjection>)
    ensures
        r.deep_view() == shown_members(members.deep_view()),
{
    let ghost m = members.deep_view();
    let mut shown: Vec<ImpactMemberProjection> = Vec::new();
    let mut i: usize = 0;
    while i < members.len()
        invariant
            i <= members.len(),
            m == members.deep_view(),
            shown@.len() == i,
            forall|k: int|
                0 <= k < i ==> (#[trigger] shown@[k]).deep_view() == shown_member(m[k]),
        decreases members.len() - i,
    {
        assert(m[i as int] == members@[i as int].deep_view());
        let member = &members[i];
        shown.push(
            ImpactMemberProjection {
                side: member.side,
                member_alias: member.member_alias.clone(),
                observed: member.observed,
                matched_finding_count: member.matched_finding_count,
                selected_finding_count: member.selected_finding_count,
                declaration_count: member.declaration_count,
                use_count: member.use_count,
                boundary_count: member.boundary_count,
                exact_shape_digest: member.exact_shape_digest.copied(),
            },
        );
        i = i + 1;
    }
    assert(shown.deep_view() =~= shown_members(m));
    shown
}

/// What is shown of an impact.
pub open spec fn projection_of(a: ThreadImpactAuthorityModel) -> ThreadImpactProjectionModel {
    ThreadImpactProjectionModel {
        schema: THREAD_IMPACT_PROJECTION_SCHEMA@,
        impact_id: "thread-impact:"@ + a.authority_digest,
        authority_digest: a.authority_digest,
        binding_digest: a.binding_digest,
        fact_set_authority_digest: a.fact_set_authority_digest,
        pair_id: a.pair.pair_id,
        subject_kind: a.request.subject.kind(),
        relationship_authority: a.relationship_authority,
        shape_status: a.shape_status,
        certainty: a.certainty,
        members: shown_members(a.members),
        finding_count: a.finding_count,
        source_window_count: a.source_window_count,
        obligation_count: a.obligation_count,
        findings_truncated: a.findings_truncated,
        source_windows_truncated: a.source_windows_truncated,
        findings: a.public_findings,
        public_findings_truncated: a.public_findings_truncated,
        obligations: a.public_obligations,
        source_windows: a.public_source_windows,
        evidence_ref: a.evidence_ref,
    }
}

/// The compact projection of an impact.
pub fn project(authority: &ThreadImpactAuthority) -> (r: ThreadImpactProjection)
    ensures
        r.deep_view() == projection_of(authority.deep_view()),
{
    ThreadImpactProjection {
        schema: THREAD_IMPACT_PROJECTION_SCHEMA.to_owned(),
        impact_id: joined("thread-impact:", authority.authority_digest.as_str()),
        authority_digest: authority.authority_digest.clone(),
        binding_digest: authority.binding_digest.clone(),
        fact_set_authority_digest: authority.fact_set_authority_digest.clone(),
        pair_id: authority.pair.pair_id.clone(),
        subject_kind: authority.request.subject.kind(),
        relationship_authority: authority.relationship_authority,
        shape_status: authority.shape_status,
        certainty: authority.certainty,
        members: project_members(&authority.members),
        finding_count: authority.finding_count,
        source_window_count: authority.source_window_count,
        obligation_count: authority.obligation_count,
        findings_truncated: authority.findings_truncated,
        source_windows_truncated: authority.source_windows_truncated,
        findings: authority.public_findings.copied(),
        public_findings_truncated: authority.public_findings_truncated,
        obligations: authority.public_obligations.copied(),
        source_windows: authority.public_source_windows.copied(),
        evidence_ref: authority.evidence_ref.copied(),
    }
}

/// An authority with its digest.
pub open spec fn sealed_authority(a: ThreadImpactAuthorityModel) -> ThreadImpactAuthorityModel {
    ThreadImpactAuthorityModel { authority_digest: json_digest(authority_material(a)), ..a }
}

/// The bytes of an authority.
#[verifier::opaque]
pub open spec fn authority_bytes_of(a: ThreadImpactAuthorityModel) -> Seq<u8> {
    canonical_bytes(<ThreadImpactAuthority as Record>::json(a))
}

/// The bytes of some evidence.
#[verifier::opaque]
pub open spec fn evidence_bytes_of(evidence: ThreadImpactEvidenceModel) -> Seq<u8> {
    canonical_bytes(<ThreadImpactEvidence as Record>::json(evidence))
}

/// The bytes of a projection.
#[verifier::opaque]
pub open spec fn projection_bytes_of(projection: ThreadImpactProjectionModel) -> Seq<u8> {
    canonical_bytes(<ThreadImpactProjection as Record>::json(projection))
}

/// Writes an authority.
pub fn write_authority(authority: &ThreadImpactAuthority) -> (r: Vec<u8>)
    ensures
        r@ == authority_bytes_of(authority.deep_view()),
{
    proof {
        reveal(authority_bytes_of);
    }
    authority.to_json().bytes()
}

/// Writes evidence.
pub fn write_evidence(evidence: &ThreadImpactEvidence) -> (r: Vec<u8>)
    ensures
        r@ == evidence_bytes_of(evidence.deep_view()),
{
    proof {
        reveal(evidence_bytes_of);
    }
    evidence.to_json().bytes()
}

/// Writes a projection.
pub fn write_projection(projection: &ThreadImpactProjection) -> (r: Vec<u8>)
    ensures
        r@ == projection_bytes_of(projection.deep_view()),
{
    proof {
        reveal(projection_bytes_of);
    }
    projection.to_json().bytes()
}

/// The bytes of the projection of an authority.
pub open spec fn projected_bytes(a: ThreadImpactAuthorityModel) -> Seq<u8> {
    projection_bytes_of(projection_of(a))
}

/// Whether the projection of an authority fits, with what is put around it.
pub open spec fn projection_fits(a: ThreadImpactAuthorityModel, max_stdout: usize) -> bool {
    projected_bytes(a).len() + IMPACT_STDOUT_ENVELOPE_RESERVE <= max_stdout
}

/// An authority without the last of the findings that it shows.
pub open spec fn with_less(a: ThreadImpactAuthorityModel) -> ThreadImpactAuthorityModel {
    ThreadImpactAuthorityModel {
        public_findings: a.public_findings.drop_last(),
        public_findings_truncated: true,
        ..a
    }
}

/// An authority that shows as many findings as fit.
pub open spec fn trimmed(a: ThreadImpactAuthorityModel, max_stdout: usize) -> Result<
    ThreadImpactAuthorityModel,
    ErrorModel,
>
    decreases a.public_findings.len(),
{
    let sealed = sealed_authority(a);
    if projection_fits(sealed, max_stdout) {
        Ok(sealed)
    } else if a.public_findings.len() == 0 {
        exceeded("mandatory Kotlin impact obligations/source anchors exceed the stdout bound"@)
    } else {
        trimmed(with_less(a), max_stdout)
    }
}

/// The authority of a selection, before it is trimmed and sealed.
pub open spec fn authority_drafted(
    set: PreparedCallableFactSetModel,
    request: ThreadImpactRequestModel,
    selection: ImpactQuerySelectionModel,
    evidence_ref: CasObjectModel,
    closure: Seq<CasObjectModel>,
    retained_cas_bytes: usize,
) -> ThreadImpactAuthorityModel {
    ThreadImpactAuthorityModel {
        schema: THREAD_IMPACT_AUTHORITY_SCHEMA@,
        authority_digest: Seq::empty(),
        binding_digest: selection.binding_digest,
        fact_set_authority_digest: set.authority.authority_digest,
        request,
        pair: selection.pair,
        relationship_authority: selection.relationship_authority,
        shape_status: selection.shape_status,
        certainty: selection.certainty,
        members: selection.members,
        finding_count: selection.findings.len() as usize,
        source_window_count: selection.source_windows.len() as usize,
        obligation_count: selection.obligations.len() as usize,
        findings_truncated: selection.findings_truncated,
        source_windows_truncated: selection.source_windows_truncated,
        public_findings: shown_findings(selection.findings),
        public_findings_truncated: selection.findings_truncated,
        public_obligations: selection.obligations,
        public_source_windows: selection.source_windows,
        evidence_ref,
        direct_cas_closure: closure,
        retained_cas_bytes,
        new_derived_cas_object_count: 1,
        budgets: request.budgets,
    }
}

/// What is published of an authority with its evidence.
pub open spec fn published(
    authority: ThreadImpactAuthorityModel,
    evidence: ThreadImpactEvidenceModel,
) -> PreparedThreadImpactModel {
    let evidence_bytes = evidence_bytes_of(evidence);
    PreparedThreadImpactModel {
        authority,
        evidence,
        evidence_object: PreparedCasObjectModel {
            reference: reference_to(THREAD_IMPACT_EVIDENCE_SCHEMA@, evidence_bytes),
            bytes: evidence_bytes,
        },
        authority_bytes: authority_bytes_of(authority),
        projection: projection_of(authority),
        projection_bytes: projected_bytes(authority),
    }
}

/// The impact that a selection makes.
#[verifier::opaque]
pub open spec fn impact_of(
    set: PreparedCallableFactSetModel,
    request: ThreadImpactRequestModel,
    selection: ImpactQuerySelectionModel,
) -> Result<PreparedThreadImpactModel, ErrorModel> {
    let evidence = ThreadImpactEvidenceModel { schema: THREAD_IMPACT_EVIDENCE_SCHEMA@, selection };
    let evidence_bytes = evidence_bytes_of(evidence);
    let evidence_ref = reference_to(THREAD_IMPACT_EVIDENCE_SCHEMA@, evidence_bytes);
    if evidence_bytes.len() > request.budgets.max_retained_closure_bytes {
        exceeded("Kotlin impact evidence exceeds the retained byte bound"@)
    } else {
        match members_of_pair(set, selection.pair) {
            Err(e) => Err(e),
            Ok((provider, consumer)) => match closed(
                proof_of(selection, provider, consumer).push(evidence_ref),
                request.budgets.max_retained_closure_bytes,
                impact_closure_texts(),
            ) {
                Err(e) => Err(e),
                Ok((closure, bytes)) => if 1 > request.budgets.max_derived_cas_objects {
                    exceeded("Kotlin impact derived CAS object count exceeds the frozen bound"@)
                } else {
                    match trimmed(
                        authority_drafted(set, request, selection, evidence_ref, closure, bytes),
                        request.budgets.max_stdout_bytes,
                    ) {
                        Err(e) => Err(e),
                        Ok(authority) => Ok(published(authority, evidence)),
                    }
                },
            },
        }
    }
}

/// The impact of a normalized request, given what the query found.
pub open spec fn normal_impact(
    set: PreparedCallableFactSetModel,
    request: ThreadImpactRequestModel,
    trace: CallableQueryTraceModel,
) -> Result<PreparedThreadImpactModel, ErrorModel> {
    match selection_of(set, request, trace) {
        Err(e) => Err(e),
        Ok(selection) => impact_of(set, request, selection),
    }
}

/// The impact of a request, given what the query found.
#[verifier::opaque]
pub open spec fn impact_built(
    set: PreparedCallableFactSetModel,
    request: ThreadImpactRequestModel,
    trace: CallableQueryTraceModel,
) -> Result<PreparedThreadImpactModel, ErrorModel> {
    match request_normalized(set, request) {
        Err(e) => Err(e),
        Ok(normal) => normal_impact(set, normal, trace),
    }
}

fn authority_digest(authority: &ThreadImpactAuthority) -> (r: String)
    ensures
        r@ == json_digest(authority_material(authority.deep_view())),
        is_digest(r@),
{
    hash(&write_authority_material(authority))
}

fn trim(authority: ThreadImpactAuthority, max_stdout: usize) -> (r: Result<
    ThreadImpactAuthority,
    ClewError,
>)
    ensures
        outcome(r) == trimmed(authority.deep_view(), max_stdout),
        r is Ok ==> is_digest(r->Ok_0.authority_digest@),
{
    let ghost start = authority.deep_view();
    let mut draft = authority;
    loop
        invariant
            start == authority.deep_view(),
            trimmed(start, max_stdout) == trimmed(draft.deep_view(), max_stdout),
        decreases draft.public_findings@.len(),
    {
        let ghost a = draft.deep_view();
        draft.authority_digest = authority_digest(&draft);
        assert(draft.deep_view() == sealed_authority(a));
        let projection_len: usize = write_projection(&project(&draft)).len();
        if max_stdout >= IMPACT_STDOUT_ENVELOPE_RESERVE && projection_len <= max_stdout
            - IMPACT_STDOUT_ENVELOPE_RESERVE {
            return Ok(draft);
        }
        let popped = draft.public_findings.pop();
        if popped.is_none() {
            return Err(
                budget("mandatory Kotlin impact obligations/source anchors exceed the stdout bound"),
            );
        }
        draft.public_findings_truncated = true;
        draft.authority_digest = "".to_owned();
        proof {
            let less = draft.deep_view();
            assert(less.public_findings =~= a.public_findings.drop_last());
            trimming_ignores_digest(less, with_less(a), max_stdout);
        }
    }
}

proof fn material_ignores_digest(a: ThreadImpactAuthorityModel, b: ThreadImpactAuthorityModel)
    requires
        a == (ThreadImpactAuthorityModel { authority_digest: a.authority_digest, ..b }),
    ensures
        authority_material(a) == authority_material(b),
{
    reveal(authority_material);
}

proof fn trimming_ignores_digest(
    a: ThreadImpactAuthorityModel,
    b: ThreadImpactAuthorityModel,
    max_stdout: usize,
)
    requires
        a == (ThreadImpactAuthorityModel { authority_digest: a.authority_digest, ..b }),
    ensures
        trimmed(a, max_stdout) == trimmed(b, max_stdout),
    decreases b.public_findings.len(),
{
    material_ignores_digest(a, b);
    assert(sealed_authority(a) == sealed_authority(b));
    if b.public_findings.len() > 0 {
        trimming_ignores_digest(with_less(a), with_less(b), max_stdout);
    }
}

fn build_from_selection(
    prepared: &PreparedCallableFactSet,
    request: &ThreadImpactRequest,
    selection: ImpactQuerySelection,
) -> (r: Result<PreparedThreadImpact, ClewError>)
    ensures
        outcome(r) == impact_of(
            prepared.deep_view(),
            request.deep_view(),
            selection.deep_view(),
        ),
        r is Ok ==> is_digest(r->Ok_0.authority.authority_digest@),
{
    proof {
        reveal(impact_of);
    }
    let evidence = ThreadImpactEvidence {
        schema: THREAD_IMPACT_EVIDENCE_SCHEMA.to_owned(),
        selection,
    };
    let selection = &evidence.selection;
    let evidence_bytes = write_evidence(&evidence);
    if evidence_bytes.len() > request.budgets.max_retained_closure_bytes {
        return Err(budget("Kotlin impact evidence exceeds the retained byte bound"));
    }
    let evidence_ref = CasObject::for_bytes(
        THREAD_IMPACT_EVIDENCE_SCHEMA,
        evidence_bytes.as_slice(),
    );
    let (provider, consumer) = pair_members(prepared, &selection.pair)?;
    let mut references = selected_proof_closure(selection, &provider, &consumer);
    push_reference(&mut references, &evidence_ref);
    let (direct_cas_closure, retained_cas_bytes) = canonical_cas_closure(
        &references,
        request.budgets.max_retained_closure_bytes,
    )?;
    let new_derived_cas_object_count: usize = checked_derived_cas_object_count(
        1,
        request.budgets.max_derived_cas_objects,
    )?;
    let draft = ThreadImpactAuthority {
        schema: THREAD_IMPACT_AUTHORITY_SCHEMA.to_owned(),
        authority_digest: "".to_owned(),
        binding_digest: selection.binding_digest.clone(),
        fact_set_authority_digest: prepared.authority.authority_digest.clone(),
        request: request.copied(),
        pair: selection.pair.copied(),
        relationship_authority: selection.relationship_authority,
        shape_status: selection.shape_status,
        certainty: selection.certainty,
        members: selection.members.copied(),
        finding_count: selection.findings.len(),
        source_window_count: selection.source_windows.len(),
        obligation_count: selection.obligations.len(),
        findings_truncated: selection.findings_truncated,
        source_windows_truncated: selection.source_windows_truncated,
        public_findings: public_findings(&selection.findings),
        public_findings_truncated: selection.findings_truncated,
        public_obligations: selection.obligations.copied(),
        public_source_windows: selection.source_windows.copied(),
        evidence_ref: evidence_ref.copied(),
        direct_cas_closure,
        retained_cas_bytes,
        new_derived_cas_object_count,
        budgets: request.budgets.copied(),
    };
    proof {
        trimming_ignores_digest(
            draft.deep_view(),
            authority_drafted(
                prepared.deep_view(),
                request.deep_view(),
                selection.deep_view(),
                evidence_ref.deep_view(),
                direct_cas_closure.deep_view(),
                retained_cas_bytes,
            ),
            request.budgets.max_stdout_bytes,
        );
    }
    let authority = trim(draft, request.budgets.max_stdout_bytes)?;
    let authority_bytes = write_authority(&authority);
    let projection = project(&authority);
    let projection_bytes = write_projection(&projection);
    Ok(
        PreparedThreadImpact {
            authority,
            evidence,
            evidence_object: PreparedCasObject { reference: evidence_ref, bytes: evidence_bytes },
            authority_bytes,
            projection,
            projection_bytes,
        },
    )
}

/// Builds the impact of a normalized request, given what the query found.
pub fn build_verified(
    prepared: &PreparedCallableFactSet,
    request: &ThreadImpactRequest,
    trace: &CallableQueryTrace,
) -> (r: Result<PreparedThreadImpact, ClewError>)
    ensures
        outcome(r) == normal_impact(
            prepared.deep_view(),
            request.deep_view(),
            trace.deep_view(),
        ),
        r is Ok ==> is_digest(r->Ok_0.authority.authority_digest@),
{
    let selection = select_verified(prepared, request, trace)?;
    build_from_selection(prepared, request, selection)
}

/// Builds everything that is to be published of an impact, from a fact set, given what
/// verifying it refused, if anything, and what the query of [`plan_query`] found.
pub fn build(
    prepared: &PreparedCallableFactSet,
    verified: &Option<ClewError>,
    request: &ThreadImpactRequest,
    trace: &CallableQueryTrace,
) -> (r: Result<PreparedThreadImpact, ClewError>)
    ensures
        outcome(r) == (match accepted(verified.deep_view()) {
            Err(e) => Err(e),
            Ok(_) => impact_built(prepared.deep_view(), request.deep_view(), trace.deep_view()),
        }),
        r is Ok ==> is_digest(r->Ok_0.authority.authority_digest@),
{
    accept(verified)?;
    build_from_verified(prepared, request, trace)
}

/// Builds everything that is to be published of an impact, from a verified fact
/// set and what the query of [`plan_query`] found.
pub fn build_from_verified(
    prepared: &PreparedCallableFactSet,
    request: &ThreadImpactRequest,
    trace: &CallableQueryTrace,
) -> (r: Result<PreparedThreadImpact, ClewError>)
    ensures
        outcome(r) == impact_built(
            prepared.deep_view(),
            request.deep_view(),
            trace.deep_view(),
        ),
        r is Ok ==> is_digest(r->Ok_0.authority.authority_digest@),
{
    proof {
        reveal(impact_built);
    }
    let normal = normalize_request(prepared, request)?;
    build_verified(prepared, &normal, trace)
}

/// The outcome of verifying an impact against its fact set, given what the query
/// found, unless it failed.
#[verifier::opaque]
pub open spec fn impact_verified(
    set: PreparedCallableFactSetModel,
    p: PreparedThreadImpactModel,
    trace: Option<CallableQueryTraceModel>,
) -> Result<(), ErrorModel> {
    match request_normalized(set, p.authority.request) {
        Err(_) => corrupted("prepared impact request is invalid"@),
        Ok(normal) => match trace {
            None => corrupted("prepared impact cannot be reconstructed"@),
            Some(trace) => match normal_impact(set, normal, trace) {
                Err(_) => corrupted("prepared impact cannot be reconstructed"@),
                Ok(expected) => if expected != p {
                    corrupted("prepared impact authority/evidence/projection was substituted"@)
                } else {
                    Ok(())
                },
            },
        },
    }
}

/// Builds an impact again from its fact set, given what verifying that refused, if
/// anything, and what the query of [`plan_query`] found, unless it failed, and rejects the
/// impact where anything in it differs.
pub fn verify_prepared(
    fact_set: &PreparedCallableFactSet,
    verified: &Option<ClewError>,
    prepared: &PreparedThreadImpact,
    trace: Option<&CallableQueryTrace>,
) -> (r: Result<(), ClewError>)
    ensures
        outcome(r) == (match accepted(verified.deep_view()) {
            Err(e) => Err(e),
            Ok(_) => impact_verified(
                fact_set.deep_view(),
                prepared.deep_view(),
                trace.deep_view(),
            ),
        }),
{
    accept(verified)?;
    verify_prepared_from_verified(fact_set, prepared, trace)
}

/// Builds an impact again from its verified fact set and what the query of
/// [`plan_query`] found, unless it failed, and rejects the impact where anything in
/// it differs.
pub fn verify_prepared_from_verified(
    fact_set: &PreparedCallableFactSet,
    prepared: &PreparedThreadImpact,
    trace: Option<&CallableQueryTrace>,
) -> (r: Result<(), ClewError>)
    ensures
        outcome(r) == impact_verified(
            fact_set.deep_view(),
            prepared.deep_view(),
            trace.deep_view(),
        ),
{
    proof {
        reveal(impact_verified);
    }
    let normal = match normalize_request(fact_set, &prepared.authority.request) {
        Ok(normal) => normal,
        Err(_) => {
            return Err(corrupt("prepared impact request is invalid"));
        },
    };
    let found = match trace {
        Some(found) => found,
        None => {
            return Err(corrupt("prepared impact cannot be reconstructed"));
        },
    };
    let expected = match build_verified(fact_set, &normal, found) {
        Ok(expected) => expected,
        Err(_) => {
            return Err(corrupt("prepared impact cannot be reconstructed"));
        },
    };
    if !expected.same_as(prepared) {
        return Err(corrupt("prepared impact authority/evidence/projection was substituted"));
    }
    Ok(())
}

proof fn trimming_keeps_mandatory_parts(a: ThreadImpactAuthorityModel, max_stdout: usize)
    ensures
        match trimmed(a, max_stdout) {
            Ok(t) => {
                &&& t == sealed_authority(
                    ThreadImpactAuthorityModel {
                        public_findings: t.public_findings,
                        public_findings_truncated: t.public_findings_truncated,
                        ..a
                    },
                )
                &&& t.public_findings.is_prefix_of(a.public_findings)
                &&& t.authority_digest == json_digest(authority_material(t))
                &&& projection_fits(t, max_stdout)
                &&& t.public_findings_truncated == (a.public_findings_truncated
                    || t.public_findings.len() < a.public_findings.len())
            },
            Err(_) => true,
        },
    decreases a.public_findings.len(),
{
    material_ignores_digest(sealed_authority(a), a);
    if !projection_fits(sealed_authority(a), max_stdout) && a.public_findings.len() > 0 {
        trimming_keeps_mandatory_parts(with_less(a), max_stdout);
        if let Ok(t) = trimmed(a, max_stdout) {
            assert(t.public_findings.is_prefix_of(a.public_findings.drop_last()));
            assert(t.public_findings.is_prefix_of(a.public_findings));
        }
    }
}

proof fn pointers_proof_holds(
    pointers: Seq<ImpactFactPointerModel>,
    n: nat,
    i: int,
    anchor: SourceAnchorModel,
)
    requires
        0 <= i < n <= pointers.len(),
        pointers[i].provenance.source == Some(anchor),
    ensures
        pointers_proof(pointers, n).contains(anchor.content_ref),
    decreases n,
{
    let before = pointers_proof(pointers, (n - 1) as nat);
    let last = pointer_proof(pointers[n - 1]);
    if i == n - 1 {
        assert(last[3] == anchor.content_ref);
        assert((before + last)[before.len() as int + 3] == anchor.content_ref);
    } else {
        pointers_proof_holds(pointers, (n - 1) as nat, i, anchor);
        let k = choose|k: int| 0 <= k < before.len() && before[k] == anchor.content_ref;
        assert((before + last)[k] == anchor.content_ref);
    }
}

/// Whether the sources of some facts are among some objects.
pub open spec fn facts_among(
    pointers: Seq<ImpactFactPointerModel>,
    objects: Seq<CasObjectModel>,
) -> bool {
    forall|i: int|
        0 <= i < pointers.len() ==> match (#[trigger] pointers[i]).provenance.source {
            Some(anchor) => objects.contains(anchor.content_ref),
            None => true,
        }
}

/// The closure of an impact holds the sources of all facts that it rests on.
pub proof fn closure_holds_the_sources(
    set: PreparedCallableFactSetModel,
    request: ThreadImpactRequestModel,
    trace: CallableQueryTraceModel,
    p: PreparedThreadImpactModel,
)
    requires
        impact_built(set, request, trace) == Ok::<PreparedThreadImpactModel, ErrorModel>(p),
    ensures
        facts_among(evidence_of(p.evidence.selection.findings), p.authority.direct_cas_closure),
        facts_among(
            p.evidence.selection.obligation_evidence,
            p.authority.direct_cas_closure,
        ),
{
    reveal(impact_built);
    reveal(impact_of);
    let normal = request_normalized(set, request)->Ok_0;
    let selection = selection_of(set, normal, trace)->Ok_0;
    let evidence = ThreadImpactEvidenceModel { schema: THREAD_IMPACT_EVIDENCE_SCHEMA@, selection };
    let evidence_ref = reference_to(
        THREAD_IMPACT_EVIDENCE_SCHEMA@,
        evidence_bytes_of(evidence),
    );
    let (provider, consumer) = members_of_pair(set, selection.pair)->Ok_0;
    let references = proof_of(selection, provider, consumer).push(evidence_ref);
    let (closure, bytes) = closed(
        references,
        normal.budgets.max_retained_closure_bytes,
        impact_closure_texts(),
    )->Ok_0;
    closure_is_canonical(
        references,
        normal.budgets.max_retained_closure_bytes,
        impact_closure_texts(),
    );
    trimming_keeps_mandatory_parts(
        authority_drafted(set, normal, selection, evidence_ref, closure, bytes),
        normal.budgets.max_stdout_bytes,
    );
    assert(p.authority.direct_cas_closure == closure);
    let findings = pointers_proof(evidence_of(selection.findings), selection.findings.len());
    let obligations = pointers_proof(
        selection.obligation_evidence,
        selection.obligation_evidence.len(),
    );
    let all = proof_of(selection, provider, consumer);
    let front = all.len() - findings.len() - obligations.len();
    assert forall|x: CasObjectModel| findings.contains(x) || obligations.contains(
        x,
    ) implies #[trigger] closure.contains(x) by {
        if findings.contains(x) {
            let k = choose|k: int| 0 <= k < findings.len() && findings[k] == x;
            assert(references[front + k] == x);
        } else {
            let k = choose|k: int| 0 <= k < obligations.len() && obligations[k] == x;
            assert(references[front + findings.len() + k] == x);
        }
        assert(references.contains(x));
    }
    let pointers = evidence_of(selection.findings);
    assert forall|i: int| 0 <= i < pointers.len() implies match (
    #[trigger] pointers[i]).provenance.source {
        Some(anchor) => closure.contains(anchor.content_ref),
        None => true,
    } by {
        if let Some(anchor) = pointers[i].provenance.source {
            pointers_proof_holds(pointers, pointers.len(), i, anchor);
            assert(findings.contains(anchor.content_ref));
        }
    }
    let others = selection.obligation_evidence;
    assert forall|i: int| 0 <= i < others.len() implies match (
    #[trigger] others[i]).provenance.source {
        Some(anchor) => closure.contains(anchor.content_ref),
        None => true,
    } by {
        if let Some(anchor) = others[i].provenance.source {
            pointers_proof_holds(others, others.len(), i, anchor);
            assert(obligations.contains(anchor.content_ref));
        }
    }
}

/// What is published shows every obligation and every source window, and leaves
/// out findings only from the end, and then says so; it fits within its bound.
pub proof fn published_impact_keeps_mandatory_parts(
    set: PreparedCallableFactSetModel,
    request: ThreadImpactRequestModel,
    trace: CallableQueryTraceModel,
    p: PreparedThreadImpactModel,
)
    requires
        impact_built(set, request, trace) == Ok::<PreparedThreadImpactModel, ErrorModel>(p),
    ensures
        p.projection.obligations == p.evidence.selection.obligations,
        p.projection.source_windows == p.evidence.selection.source_windows,
        p.projection.findings.is_prefix_of(shown_findings(p.evidence.selection.findings)),
        p.projection.public_findings_truncated == (p.evidence.selection.findings_truncated
            || p.projection.findings.len() < p.evidence.selection.findings.len()),
        p.projection_bytes.len() + IMPACT_STDOUT_ENVELOPE_RESERVE <= MAX_IMPACT_STDOUT_BYTES,
        p.authority.authority_digest == json_digest(authority_material(p.authority)),
        p == published(p.authority, p.evidence),
        p.authority.evidence_ref == p.evidence_object.reference,
        p.authority.fact_set_authority_digest == set.authority.authority_digest,
        p.evidence_object.bytes.len() <= MAX_IMPACT_RETAINED_CLOSURE_BYTES,
{
    reveal(impact_built);
    reveal(selection_of);
    reveal(impact_of);
    let normal = request_normalized(set, request)->Ok_0;
    let selection = selection_of(set, normal, trace)->Ok_0;
    let evidence = ThreadImpactEvidenceModel { schema: THREAD_IMPACT_EVIDENCE_SCHEMA@, selection };
    let evidence_ref = reference_to(
        THREAD_IMPACT_EVIDENCE_SCHEMA@,
        evidence_bytes_of(evidence),
    );
    let (provider, consumer) = members_of_pair(set, selection.pair)->Ok_0;
    let (closure, bytes) = closed(
        proof_of(selection, provider, consumer).push(evidence_ref),
        normal.budgets.max_retained_closure_bytes,
        impact_closure_texts(),
    )->Ok_0;
    trimming_keeps_mandatory_parts(
        authority_drafted(set, normal, selection, evidence_ref, closure, bytes),
        normal.budgets.max_stdout_bytes,
    );
}

/// An impact is verified only where the relationship is verified, the shapes
/// compare exactly, nothing is left to be done and nothing was left out; a token is
/// never compared, and its findings are never exact.
pub proof fn certainty_is_earned(
    set: PreparedCallableFactSetModel,
    request: ThreadImpactRequestModel,
    trace: CallableQueryTraceModel,
    s: ImpactQuerySelectionModel,
)
    requires
        impact_selected(set, request, trace) == Ok::<ImpactQuerySelectionModel, ErrorModel>(s),
    ensures
        s.certainty == ImpactCertainty::Verified <==> s.pair.relationship_authority
            == RelationshipAuthority::VerifiedSameSnapshotCompilationDependency && (s.shape_status
            == ImpactShapeStatus::ExactProjectedShapeEqual || s.shape_status
            == ImpactShapeStatus::ExactProjectedShapeDelta) && s.obligations.len() == 0
            && !s.findings_truncated && !s.source_windows_truncated,
        s.relationship_authority == s.pair.relationship_authority,
        request.subject is Token ==> s.shape_status == ImpactShapeStatus::NotComparable
            && s.certainty == ImpactCertainty::Unsure,
        request.subject is Token ==> forall|i: int|
            0 <= i < s.findings.len() ==> (#[trigger] s.findings[i]).authority
                != ImpactFindingAuthority::ExactProjectedDeclaration,
        s.findings.len() <= MAX_IMPACT_FINDINGS,
        s.obligations.len() <= MAX_IMPACT_OBLIGATIONS,
        s.source_windows.len() <= MAX_IMPACT_SOURCE_WINDOWS,
{
    reveal(selection_of);
    let normal = request_normalized(set, request)->Ok_0;
    let scope = scoped(set, normal)->Ok_0;
    let candidates = candidates_of(scope, normal.subject, trace.matched_fact_ids);
    fair_selection_fills_its_limit(candidates, normal.budgets.max_findings);
    let binding = json_digest(binding_material(set, normal, scope.pair));
    selected_windows_are_bounded(
        binding,
        findings_of(
            binding,
            fairly_taken(candidates, normal.budgets.max_findings),
            normal.subject,
        ),
        normal.budgets.max_source_windows,
        normal.budgets.max_source_window_bytes,
    );
}

/// The obligations of a selection stand in their order, each once.
pub proof fn obligations_are_ordered(
    set: PreparedCallableFactSetModel,
    request: ThreadImpactRequestModel,
    trace: CallableQueryTraceModel,
    s: ImpactQuerySelectionModel,
)
    requires
        impact_selected(set, request, trace) == Ok::<ImpactQuerySelectionModel, ErrorModel>(s),
    ensures
        order::is_table::<ImpactObligation>(s.obligations),
{
    reveal(selection_of);
    let normal = request_normalized(set, request)->Ok_0;
    let scope = scoped(set, normal)->Ok_0;
    let candidates = candidates_of(scope, normal.subject, trace.matched_fact_ids);
    let arising = obligations_arising(set, scope, normal.subject, candidates);
    let table = order::first_table::<ImpactObligation>(arising);
    order::first_table_is_table::<ImpactObligation>(arising);
    let narrow = about_all(ImpactObligationCode::NarrowOrExpandQuery);
    order::entered_keeps_table::<ImpactObligation>(table, narrow);
    order::entered_keeps_table::<ImpactObligation>(
        order::entered::<ImpactObligation>(table, narrow),
        narrow,
    );
}

/// What was built verifies on the same facts, where the form in which its request
/// is answered is its own normal form. It is for every subject but some tokens:
/// those whose lower case is no identifier token, or has another lower case.
pub proof fn built_impact_verifies(
    set: PreparedCallableFactSetModel,
    request: ThreadImpactRequestModel,
    trace: CallableQueryTraceModel,
    p: PreparedThreadImpactModel,
)
    requires
        impact_built(set, request, trace) == Ok::<PreparedThreadImpactModel, ErrorModel>(p),
        request_normalized(set, request_normalized(set, request)->Ok_0) == request_normalized(
            set,
            request,
        ),
    ensures
        impact_verified(set, p, Some(trace)) is Ok,
{
    reveal(impact_built);
    reveal(selection_of);
    reveal(impact_of);
    let normal = request_normalized(set, request)->Ok_0;
    let selection = selection_of(set, normal, trace)->Ok_0;
    let evidence = ThreadImpactEvidenceModel { schema: THREAD_IMPACT_EVIDENCE_SCHEMA@, selection };
    let evidence_ref = reference_to(
        THREAD_IMPACT_EVIDENCE_SCHEMA@,
        evidence_bytes_of(evidence),
    );
    let (provider, consumer) = members_of_pair(set, selection.pair)->Ok_0;
    let (closure, bytes) = closed(
        proof_of(selection, provider, consumer).push(evidence_ref),
        normal.budgets.max_retained_closure_bytes,
        impact_closure_texts(),
    )->Ok_0;
    trimming_keeps_mandatory_parts(
        authority_drafted(set, normal, selection, evidence_ref, closure, bytes),
        normal.budgets.max_stdout_bytes,
    );
    reveal(impact_verified);
    assert(p.authority.request == normal);
}

/// Whether two lists of facts name the same ones.
pub open spec fn same_matches(a: Seq<Seq<char>>, b: Seq<Seq<char>>) -> bool {
    forall|id: Seq<char>| has_key::<String>(a, id) == #[trigger] has_key::<String>(b, id)
}

proof fn matches_agree(
    fact: CallableFactModel,
    subject: KotlinImpactSubjectModel,
    entries: Seq<FactEntryModel>,
    alias: Seq<char>,
    a: Seq<Seq<char>>,
    b: Seq<Seq<char>>,
)
    requires
        same_matches(a, b),
    ensures
        is_match(fact, subject, entries, alias, a) == is_match(fact, subject, entries, alias, b),
{
    if let CallableFactModel::Boundary(row) = fact {
        assert forall|i: int| 0 <= i < entries.len() implies is_bounded_declaration(
            #[trigger] entries[i],
            alias,
            a,
            row,
        ) == is_bounded_declaration(entries[i], alias, b, row) by {
            if let CallableFactModel::Declaration(d) = entries[i].fact {
                assert(has_key::<String>(a, d.fact_id) == has_key::<String>(b, d.fact_id));
            }
        }
        assert(boundary_related(entries, alias, a, row) == boundary_related(
            entries,
            alias,
            b,
            row,
        ));
    }
    assert(has_key::<String>(a, fact.fact_id()) == has_key::<String>(b, fact.fact_id()));
}

proof fn side_candidates_agree(
    side: ImpactSide,
    alias: Seq<char>,
    subject: KotlinImpactSubjectModel,
    entries: Seq<FactEntryModel>,
    a: Seq<Seq<char>>,
    b: Seq<Seq<char>>,
    n: nat,
)
    requires
        same_matches(a, b),
    ensures
        side_candidates(side, alias, subject, entries, a, n) == side_candidates(
            side,
            alias,
            subject,
            entries,
            b,
            n,
        ),
    decreases n,
{
    if 0 < n <= entries.len() {
        side_candidates_agree(side, alias, subject, entries, a, b, (n - 1) as nat);
        matches_agree(entries[n - 1].fact, subject, entries, alias, a, b);
    }
}

/// What is selected does not depend on the order in which the query found the facts, nor
/// on how often it found one.
pub proof fn order_of_matches_is_irrelevant(
    set: PreparedCallableFactSetModel,
    request: ThreadImpactRequestModel,
    one: CallableQueryTraceModel,
    two: CallableQueryTraceModel,
)
    requires
        same_matches(one.matched_fact_ids, two.matched_fact_ids),
        one.query_shard_refs == two.query_shard_refs,
    ensures
        impact_selected(set, request, one) == impact_selected(set, request, two),
{
    reveal(selection_of);
    if let Ok(normal) = request_normalized(set, request) {
        if let Ok(scope) = scoped(set, normal) {
            side_candidates_agree(
                ImpactSide::Provider,
                scope.provider.member_alias,
                normal.subject,
                scope.entries,
                one.matched_fact_ids,
                two.matched_fact_ids,
                scope.entries.len(),
            );
            side_candidates_agree(
                ImpactSide::Consumer,
                scope.consumer.member_alias,
                normal.subject,
                scope.entries,
                one.matched_fact_ids,
                two.matched_fact_ids,
                scope.entries.len(),
            );
        }
    }
}

/// An impact that verifies is what its own request has on the facts: two that verify and
/// have one request are one impact, so nothing in it can be put in the place of anything
/// else.
pub proof fn verified_impact_is_the_built_one(
    set: PreparedCallableFactSetModel,
    p: PreparedThreadImpactModel,
    other: PreparedThreadImpactModel,
    trace: CallableQueryTraceModel,
)
    requires
        impact_verified(set, p, Some(trace)) is Ok,
        impact_verified(set, other, Some(trace)) is Ok,
    ensures
        impact_built(set, p.authority.request, trace) == Ok::<
            PreparedThreadImpactModel,
            ErrorModel,
        >(p),
        p.authority.request == other.authority.request ==> p == other,
{
    reveal(impact_built);
    reveal(impact_verified);
}

} // verus!
