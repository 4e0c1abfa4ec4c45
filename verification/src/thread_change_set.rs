//! Pure, bounded coverage of a Kotlin change between two impacts.
//!
//! The module compares two verified impacts. It reads no repository, opens no
//! managed state, runs no command and publishes nothing: it predicts the two
//! objects that a caller must publish (the normalized coverage document and the
//! private evidence), the closure that proves them, and a bounded projection.

use vstd::prelude::*;
use vstd::string::*;

use crate::canonical::{hash, json_digest};
use crate::cas::{reference_to, CasObject, CasObjectModel};
use crate::closure::{close, closed, ClosureMessages, ClosureTexts};
use crate::error::{
    accept, accepted, budget, corrupt, corrupted, exceeded, invalid, outcome, refused, ClewError,
    ErrorModel,
};
use crate::json::{canonical_bytes, list, member_of_with, Json, JsonModel, Members};
use crate::order;
use crate::order::{Ordered, Part, PartModel};
use crate::record::Record;
use crate::table::{
    contains_key, enter_new, find_record, first_table, has_key, has_repeats, is_table, last_table,
    latest_table_of, record_at, repeats, sort, sorted, sorted_is_sorted, table_of, Keyed,
};
use crate::text::{
    byte_len, chars_of, copy_bytes, find, found, is_digest, is_nfc, joined, nfc_of, same_bytes,
    same_text, sha256_digest, text_of,
};
use crate::thread::{
    RuntimeMode, SessionLanguage, ThreadAuthority, ThreadAuthorityModel, ThreadMemberBinding,
    ThreadMemberBindingModel,
};
use crate::thread_callables::{
    CallableCompilationBinding, CallableCompilationBindingModel, CallableFactSetCoverage,
    CallableMemberBinding, CallableMemberBindingModel, CallableQueryTrace, CallableQueryTraceModel,
    DeclarationKind, GraphCoverage, PreparedCallableFactSet, PreparedCallableFactSetModel,
    PreparedCasObject, PreparedCasObjectModel, RelationshipAuthority,
};
use crate::thread_impact;
use crate::thread_impact::{
    added_if, impact_verified, ImpactFinding, ImpactFindingAuthority, ImpactFindingDetail,
    ImpactFindingDetailModel, ImpactFindingModel, ImpactObligation, ImpactObligationCode,
    ImpactObligationModel, ImpactSide, KotlinImpactSubject, KotlinImpactSubjectModel,
    PreparedThreadImpact, PreparedThreadImpactModel,
};
use crate::unambiguous::{canonical_bytes_tell_values_apart, is_plain, with_keeps_plain};

verus! {

pub const KOTLIN_CHANGE_COVERAGE_DOCUMENT_SCHEMA: &'static str =
    "codeclew-kotlin-change-coverage-document/1.0";

pub const KOTLIN_CHANGE_COVERAGE_EVIDENCE_SCHEMA: &'static str =
    "codeclew-kotlin-change-coverage-evidence/1.0";

pub const KOTLIN_CHANGE_COVERAGE_AUTHORITY_SCHEMA: &'static str =
    "codeclew-kotlin-change-coverage-authority/1.0";

pub const KOTLIN_CHANGE_COVERAGE_PROJECTION_SCHEMA: &'static str =
    "codeclew-kotlin-change-coverage-projection/1.0";

pub const KOTLIN_CHANGE_RULES_SCHEMA: &'static str = "codeclew-kotlin-change-rules/1.0";

pub const MAX_CHANGE_MEMBER_CORRESPONDENCES: usize = 2;

pub const MAX_CHANGE_COVERAGE_DOCUMENT_BYTES: usize = 2 * 1024 * 1024;

pub const MAX_CHANGE_COVERAGE_ENTRIES: usize = 8_192;

pub const MAX_CHANGE_OBSERVATIONS: usize = 4_096;

pub const MAX_CHANGE_OBLIGATIONS: usize = 4_096;

pub const MAX_CHANGE_RESULT_ROWS: usize = 8_192;

pub const MAX_CHANGE_DERIVED_CAS_OBJECTS: usize = 2;

pub const MAX_CHANGE_RETAINED_CLOSURE_BYTES: usize = 64 * 1024 * 1024;

pub const MAX_CHANGE_STDOUT_BYTES: usize = 64 * 1024;

/// What is left free of the bound on what is shown, for what is put around it.
pub const CHANGE_STDOUT_ENVELOPE_RESERVE: usize = 4 * 1024;

/// The bounds of a change set.
#[derive(Debug, PartialEq, Eq)]
pub struct ChangeSetBudgets {
    pub max_member_correspondences: usize,
    pub max_coverage_document_bytes: usize,
    pub max_coverage_entries: usize,
    pub max_observations: usize,
    pub max_obligations: usize,
    pub max_result_rows: usize,
    pub max_derived_cas_objects: usize,
    pub max_retained_closure_bytes: usize,
    pub max_stdout_bytes: usize,
}

/// The model of a [`ChangeSetBudgets`].
pub struct ChangeSetBudgetsModel {
    pub max_member_correspondences: usize,
    pub max_coverage_document_bytes: usize,
    pub max_coverage_entries: usize,
    pub max_observations: usize,
    pub max_obligations: usize,
    pub max_result_rows: usize,
    pub max_derived_cas_objects: usize,
    pub max_retained_closure_bytes: usize,
    pub max_stdout_bytes: usize,
}

impl DeepView for ChangeSetBudgets {
    type V = ChangeSetBudgetsModel;

    open spec fn deep_view(&self) -> ChangeSetBudgetsModel {
        ChangeSetBudgetsModel {
            max_member_correspondences: self.max_member_correspondences.deep_view(),
            max_coverage_document_bytes: self.max_coverage_document_bytes.deep_view(),
            max_coverage_entries: self.max_coverage_entries.deep_view(),
            max_observations: self.max_observations.deep_view(),
            max_obligations: self.max_obligations.deep_view(),
            max_result_rows: self.max_result_rows.deep_view(),
            max_derived_cas_objects: self.max_derived_cas_objects.deep_view(),
            max_retained_closure_bytes: self.max_retained_closure_bytes.deep_view(),
            max_stdout_bytes: self.max_stdout_bytes.deep_view(),
        }
    }
}

impl Record for ChangeSetBudgets {
    open spec fn json(v: ChangeSetBudgetsModel) -> JsonModel {
        JsonModel::object()
            .with("maxMemberCorrespondences"@, <usize as Record>::json(v.max_member_correspondences))
            .with("maxCoverageDocumentBytes"@, <usize as Record>::json(v.max_coverage_document_bytes))
            .with("maxCoverageEntries"@, <usize as Record>::json(v.max_coverage_entries))
            .with("maxObservations"@, <usize as Record>::json(v.max_observations))
            .with("maxObligations"@, <usize as Record>::json(v.max_obligations))
            .with("maxResultRows"@, <usize as Record>::json(v.max_result_rows))
            .with("maxDerivedCasObjects"@, <usize as Record>::json(v.max_derived_cas_objects))
            .with("maxRetainedClosureBytes"@, <usize as Record>::json(v.max_retained_closure_bytes))
            .with("maxStdoutBytes"@, <usize as Record>::json(v.max_stdout_bytes))
    }

    fn copied(&self) -> (r: ChangeSetBudgets) {
        ChangeSetBudgets {
            max_member_correspondences: self.max_member_correspondences.copied(),
            max_coverage_document_bytes: self.max_coverage_document_bytes.copied(),
            max_coverage_entries: self.max_coverage_entries.copied(),
            max_observations: self.max_observations.copied(),
            max_obligations: self.max_obligations.copied(),
            max_result_rows: self.max_result_rows.copied(),
            max_derived_cas_objects: self.max_derived_cas_objects.copied(),
            max_retained_closure_bytes: self.max_retained_closure_bytes.copied(),
            max_stdout_bytes: self.max_stdout_bytes.copied(),
        }
    }

    fn same_as(&self, other: &ChangeSetBudgets) -> (r: bool) {
        self.max_member_correspondences.same_as(&other.max_member_correspondences)
            && self.max_coverage_document_bytes.same_as(&other.max_coverage_document_bytes)
            && self.max_coverage_entries.same_as(&other.max_coverage_entries)
            && self.max_observations.same_as(&other.max_observations)
            && self.max_obligations.same_as(&other.max_obligations)
            && self.max_result_rows.same_as(&other.max_result_rows)
            && self.max_derived_cas_objects.same_as(&other.max_derived_cas_objects)
            && self.max_retained_closure_bytes.same_as(&other.max_retained_closure_bytes)
            && self.max_stdout_bytes.same_as(&other.max_stdout_bytes)
    }

    fn to_json(&self) -> (r: Json) {
        Json::object()
            .with("maxMemberCorrespondences", self.max_member_correspondences.to_json())
            .with("maxCoverageDocumentBytes", self.max_coverage_document_bytes.to_json())
            .with("maxCoverageEntries", self.max_coverage_entries.to_json())
            .with("maxObservations", self.max_observations.to_json())
            .with("maxObligations", self.max_obligations.to_json())
            .with("maxResultRows", self.max_result_rows.to_json())
            .with("maxDerivedCasObjects", self.max_derived_cas_objects.to_json())
            .with("maxRetainedClosureBytes", self.max_retained_closure_bytes.to_json())
            .with("maxStdoutBytes", self.max_stdout_bytes.to_json())
    }
}

/// A member before the change and the member that it is after.
#[derive(Debug, PartialEq, Eq)]
pub struct MemberCorrespondence {
    pub before_member_alias: String,
    pub after_member_alias: String,
}

/// The model of a [`MemberCorrespondence`].
pub struct MemberCorrespondenceModel {
    pub before_member_alias: Seq<char>,
    pub after_member_alias: Seq<char>,
}

impl DeepView for MemberCorrespondence {
    type V = MemberCorrespondenceModel;

    open spec fn deep_view(&self) -> MemberCorrespondenceModel {
        MemberCorrespondenceModel {
            before_member_alias: self.before_member_alias.deep_view(),
            after_member_alias: self.after_member_alias.deep_view(),
        }
    }
}

impl Record for MemberCorrespondence {
    open spec fn json(v: MemberCorrespondenceModel) -> JsonModel {
        JsonModel::object()
            .with("beforeMemberAlias"@, <String as Record>::json(v.before_member_alias))
            .with("afterMemberAlias"@, <String as Record>::json(v.after_member_alias))
    }

    fn copied(&self) -> (r: MemberCorrespondence) {
        MemberCorrespondence {
            before_member_alias: self.before_member_alias.copied(),
            after_member_alias: self.after_member_alias.copied(),
        }
    }

    fn same_as(&self, other: &MemberCorrespondence) -> (r: bool) {
        self.before_member_alias.same_as(&other.before_member_alias)
            && self.after_member_alias.same_as(&other.after_member_alias)
    }

    fn to_json(&self) -> (r: Json) {
        Json::object()
            .with("beforeMemberAlias", self.before_member_alias.to_json())
            .with("afterMemberAlias", self.after_member_alias.to_json())
    }
}

/// The runtime that validates a change set.
#[derive(Debug, PartialEq, Eq)]
pub struct ValidatorRuntimeAuthority {
    pub runtime_key: String,
    pub runtime_mode: RuntimeMode,
    pub manifest_digest: String,
}

/// The model of a [`ValidatorRuntimeAuthority`].
pub struct ValidatorRuntimeAuthorityModel {
    pub runtime_key: Seq<char>,
    pub runtime_mode: RuntimeMode,
    pub manifest_digest: Seq<char>,
}

impl DeepView for ValidatorRuntimeAuthority {
    type V = ValidatorRuntimeAuthorityModel;

    open spec fn deep_view(&self) -> ValidatorRuntimeAuthorityModel {
        ValidatorRuntimeAuthorityModel {
            runtime_key: self.runtime_key.deep_view(),
            runtime_mode: self.runtime_mode.deep_view(),
            manifest_digest: self.manifest_digest.deep_view(),
        }
    }
}

impl Record for ValidatorRuntimeAuthority {
    open spec fn json(v: ValidatorRuntimeAuthorityModel) -> JsonModel {
        JsonModel::object()
            .with("runtimeKey"@, <String as Record>::json(v.runtime_key))
            .with("runtimeMode"@, <RuntimeMode as Record>::json(v.runtime_mode))
            .with("manifestDigest"@, <String as Record>::json(v.manifest_digest))
    }

    fn copied(&self) -> (r: ValidatorRuntimeAuthority) {
        ValidatorRuntimeAuthority {
            runtime_key: self.runtime_key.copied(),
            runtime_mode: self.runtime_mode.copied(),
            manifest_digest: self.manifest_digest.copied(),
        }
    }

    fn same_as(&self, other: &ValidatorRuntimeAuthority) -> (r: bool) {
        self.runtime_key.same_as(&other.runtime_key)
            && self.runtime_mode.same_as(&other.runtime_mode)
            && self.manifest_digest.same_as(&other.manifest_digest)
    }

    fn to_json(&self) -> (r: Json) {
        Json::object()
            .with("runtimeKey", self.runtime_key.to_json())
            .with("runtimeMode", self.runtime_mode.to_json())
            .with("manifestDigest", self.manifest_digest.to_json())
    }
}

/// What was observed to change.
#[derive(Clone, Copy, Debug, PartialEq, Eq, Structural)]
pub enum KotlinChangeCode {
    KcdCallableAdded,
    KcdCallableRemoved,
    KcdOverloadSetChanged,
    KcdJvmDescriptorChanged,
    KcdParameterTypesChanged,
    KcdReturnTypeChanged,
    KcdReceiverTypeChanged,
    KcdNullabilityChanged,
    KcdTypeParameterBoundsChanged,
    KcdVisibilityChanged,
    KcdModalityChanged,
    KcdOverrideStatusChanged,
    KcdUnsupportedComparison,
}

impl DeepView for KotlinChangeCode {
    type V = KotlinChangeCode;

    open spec fn deep_view(&self) -> KotlinChangeCode {
        *self
    }
}

impl KotlinChangeCode {
    /// The name that is written for a value.
    pub open spec fn name(self) -> Seq<char> {
        match self {
            KotlinChangeCode::KcdCallableAdded => "KCD_CALLABLE_ADDED"@,
            KotlinChangeCode::KcdCallableRemoved => "KCD_CALLABLE_REMOVED"@,
            KotlinChangeCode::KcdOverloadSetChanged => "KCD_OVERLOAD_SET_CHANGED"@,
            KotlinChangeCode::KcdJvmDescriptorChanged => "KCD_JVM_DESCRIPTOR_CHANGED"@,
            KotlinChangeCode::KcdParameterTypesChanged => "KCD_PARAMETER_TYPES_CHANGED"@,
            KotlinChangeCode::KcdReturnTypeChanged => "KCD_RETURN_TYPE_CHANGED"@,
            KotlinChangeCode::KcdReceiverTypeChanged => "KCD_RECEIVER_TYPE_CHANGED"@,
            KotlinChangeCode::KcdNullabilityChanged => "KCD_NULLABILITY_CHANGED"@,
            KotlinChangeCode::KcdTypeParameterBoundsChanged => "KCD_TYPE_PARAMETER_BOUNDS_CHANGED"@,
            KotlinChangeCode::KcdVisibilityChanged => "KCD_VISIBILITY_CHANGED"@,
            KotlinChangeCode::KcdModalityChanged => "KCD_MODALITY_CHANGED"@,
            KotlinChangeCode::KcdOverrideStatusChanged => "KCD_OVERRIDE_STATUS_CHANGED"@,
            KotlinChangeCode::KcdUnsupportedComparison => "KCD_UNSUPPORTED_COMPARISON"@,
        }
    }
}

impl Record for KotlinChangeCode {
    open spec fn json(v: KotlinChangeCode) -> JsonModel {
        JsonModel::Str(v.name())
    }

    fn copied(&self) -> (r: KotlinChangeCode) {
        *self
    }

    fn same_as(&self, other: &KotlinChangeCode) -> (r: bool) {
        *self == *other
    }

    fn to_json(&self) -> (r: Json) {
        let name = match self {
            KotlinChangeCode::KcdCallableAdded => "KCD_CALLABLE_ADDED",
            KotlinChangeCode::KcdCallableRemoved => "KCD_CALLABLE_REMOVED",
            KotlinChangeCode::KcdOverloadSetChanged => "KCD_OVERLOAD_SET_CHANGED",
            KotlinChangeCode::KcdJvmDescriptorChanged => "KCD_JVM_DESCRIPTOR_CHANGED",
            KotlinChangeCode::KcdParameterTypesChanged => "KCD_PARAMETER_TYPES_CHANGED",
            KotlinChangeCode::KcdReturnTypeChanged => "KCD_RETURN_TYPE_CHANGED",
            KotlinChangeCode::KcdReceiverTypeChanged => "KCD_RECEIVER_TYPE_CHANGED",
            KotlinChangeCode::KcdNullabilityChanged => "KCD_NULLABILITY_CHANGED",
            KotlinChangeCode::KcdTypeParameterBoundsChanged => "KCD_TYPE_PARAMETER_BOUNDS_CHANGED",
            KotlinChangeCode::KcdVisibilityChanged => "KCD_VISIBILITY_CHANGED",
            KotlinChangeCode::KcdModalityChanged => "KCD_MODALITY_CHANGED",
            KotlinChangeCode::KcdOverrideStatusChanged => "KCD_OVERRIDE_STATUS_CHANGED",
            KotlinChangeCode::KcdUnsupportedComparison => "KCD_UNSUPPORTED_COMPARISON",
        };
        Json::Str(name.to_owned())
    }
}

impl KotlinChangeCode {
    /// The place of a value in the order of the values.
    pub open spec fn rank(self) -> u64 {
        match self {
            KotlinChangeCode::KcdCallableAdded => 0,
            KotlinChangeCode::KcdCallableRemoved => 1,
            KotlinChangeCode::KcdOverloadSetChanged => 2,
            KotlinChangeCode::KcdJvmDescriptorChanged => 3,
            KotlinChangeCode::KcdParameterTypesChanged => 4,
            KotlinChangeCode::KcdReturnTypeChanged => 5,
            KotlinChangeCode::KcdReceiverTypeChanged => 6,
            KotlinChangeCode::KcdNullabilityChanged => 7,
            KotlinChangeCode::KcdTypeParameterBoundsChanged => 8,
            KotlinChangeCode::KcdVisibilityChanged => 9,
            KotlinChangeCode::KcdModalityChanged => 10,
            KotlinChangeCode::KcdOverrideStatusChanged => 11,
            KotlinChangeCode::KcdUnsupportedComparison => 12,
        }
    }

    pub(crate) fn to_rank(self) -> (r: u64)
        ensures
            r == self.rank(),
    {
        match self {
            KotlinChangeCode::KcdCallableAdded => 0,
            KotlinChangeCode::KcdCallableRemoved => 1,
            KotlinChangeCode::KcdOverloadSetChanged => 2,
            KotlinChangeCode::KcdJvmDescriptorChanged => 3,
            KotlinChangeCode::KcdParameterTypesChanged => 4,
            KotlinChangeCode::KcdReturnTypeChanged => 5,
            KotlinChangeCode::KcdReceiverTypeChanged => 6,
            KotlinChangeCode::KcdNullabilityChanged => 7,
            KotlinChangeCode::KcdTypeParameterBoundsChanged => 8,
            KotlinChangeCode::KcdVisibilityChanged => 9,
            KotlinChangeCode::KcdModalityChanged => 10,
            KotlinChangeCode::KcdOverrideStatusChanged => 11,
            KotlinChangeCode::KcdUnsupportedComparison => 12,
        }
    }
}

/// Whether every target is covered.
#[derive(Clone, Copy, Debug, PartialEq, Eq, Structural)]
pub enum ChangeSetStatus {
    ValidatedConditional,
    Incomplete,
}

impl DeepView for ChangeSetStatus {
    type V = ChangeSetStatus;

    open spec fn deep_view(&self) -> ChangeSetStatus {
        *self
    }
}

impl ChangeSetStatus {
    /// The name that is written for a value.
    pub open spec fn name(self) -> Seq<char> {
        match self {
            ChangeSetStatus::ValidatedConditional => "VALIDATED_CONDITIONAL"@,
            ChangeSetStatus::Incomplete => "INCOMPLETE"@,
        }
    }
}

impl Record for ChangeSetStatus {
    open spec fn json(v: ChangeSetStatus) -> JsonModel {
        JsonModel::Str(v.name())
    }

    fn copied(&self) -> (r: ChangeSetStatus) {
        *self
    }

    fn same_as(&self, other: &ChangeSetStatus) -> (r: bool) {
        *self == *other
    }

    fn to_json(&self) -> (r: Json) {
        let name = match self {
            ChangeSetStatus::ValidatedConditional => "VALIDATED_CONDITIONAL",
            ChangeSetStatus::Incomplete => "INCOMPLETE",
        };
        Json::Str(name.to_owned())
    }
}

/// How a target is handled.
#[derive(Clone, Copy, Debug, PartialEq, Eq, Structural)]
pub enum CoverageHandlingKind {
    Action,
    ExternalWork,
}

impl DeepView for CoverageHandlingKind {
    type V = CoverageHandlingKind;

    open spec fn deep_view(&self) -> CoverageHandlingKind {
        *self
    }
}

impl CoverageHandlingKind {
    /// The name that is written for a value.
    pub open spec fn name(self) -> Seq<char> {
        match self {
            CoverageHandlingKind::Action => "ACTION"@,
            CoverageHandlingKind::ExternalWork => "EXTERNAL_WORK"@,
        }
    }
}

impl Record for CoverageHandlingKind {
    open spec fn json(v: CoverageHandlingKind) -> JsonModel {
        JsonModel::Str(v.name())
    }

    fn copied(&self) -> (r: CoverageHandlingKind) {
        *self
    }

    fn same_as(&self, other: &CoverageHandlingKind) -> (r: bool) {
        *self == *other
    }

    fn to_json(&self) -> (r: Json) {
        let name = match self {
            CoverageHandlingKind::Action => "ACTION",
            CoverageHandlingKind::ExternalWork => "EXTERNAL_WORK",
        };
        Json::Str(name.to_owned())
    }
}

/// The handling of a target.
#[derive(Debug, PartialEq, Eq)]
pub struct CoverageHandling {
    pub kind: CoverageHandlingKind,
    pub id: String,
}

/// The model of a [`CoverageHandling`].
pub struct CoverageHandlingModel {
    pub kind: CoverageHandlingKind,
    pub id: Seq<char>,
}

impl DeepView for CoverageHandling {
    type V = CoverageHandlingModel;

    open spec fn deep_view(&self) -> CoverageHandlingModel {
        CoverageHandlingModel {
            kind: self.kind.deep_view(),
            id: self.id.deep_view(),
        }
    }
}

impl Record for CoverageHandling {
    open spec fn json(v: CoverageHandlingModel) -> JsonModel {
        JsonModel::object()
            .with("kind"@, <CoverageHandlingKind as Record>::json(v.kind))
            .with("id"@, <String as Record>::json(v.id))
    }

    fn copied(&self) -> (r: CoverageHandling) {
        CoverageHandling {
            kind: self.kind.copied(),
            id: self.id.copied(),
        }
    }

    fn same_as(&self, other: &CoverageHandling) -> (r: bool) {
        self.kind.same_as(&other.kind)
            && self.id.same_as(&other.id)
    }

    fn to_json(&self) -> (r: Json) {
        Json::object()
            .with("kind", self.kind.to_json())
            .with("id", self.id.to_json())
    }
}

/// What a target needs to be verified.
#[derive(Clone, Copy, Debug, PartialEq, Eq, Structural)]
pub enum VerificationCategory {
    MemberAuthority,
    StructuralComparison,
    CompilerBoundary,
    RelationshipAuthority,
    UpstreamObligation,
    ComparisonBoundary,
}

impl DeepView for VerificationCategory {
    type V = VerificationCategory;

    open spec fn deep_view(&self) -> VerificationCategory {
        *self
    }
}

impl VerificationCategory {
    /// The name that is written for a value.
    pub open spec fn name(self) -> Seq<char> {
        match self {
            VerificationCategory::MemberAuthority => "MEMBER_AUTHORITY"@,
            VerificationCategory::StructuralComparison => "STRUCTURAL_COMPARISON"@,
            VerificationCategory::CompilerBoundary => "COMPILER_BOUNDARY"@,
            VerificationCategory::RelationshipAuthority => "RELATIONSHIP_AUTHORITY"@,
            VerificationCategory::UpstreamObligation => "UPSTREAM_OBLIGATION"@,
            VerificationCategory::ComparisonBoundary => "COMPARISON_BOUNDARY"@,
        }
    }
}

impl Record for VerificationCategory {
    open spec fn json(v: VerificationCategory) -> JsonModel {
        JsonModel::Str(v.name())
    }

    fn copied(&self) -> (r: VerificationCategory) {
        *self
    }

    fn same_as(&self, other: &VerificationCategory) -> (r: bool) {
        *self == *other
    }

    fn to_json(&self) -> (r: Json) {
        let name = match self {
            VerificationCategory::MemberAuthority => "MEMBER_AUTHORITY",
            VerificationCategory::StructuralComparison => "STRUCTURAL_COMPARISON",
            VerificationCategory::CompilerBoundary => "COMPILER_BOUNDARY",
            VerificationCategory::RelationshipAuthority => "RELATIONSHIP_AUTHORITY",
            VerificationCategory::UpstreamObligation => "UPSTREAM_OBLIGATION",
            VerificationCategory::ComparisonBoundary => "COMPARISON_BOUNDARY",
        };
        Json::Str(name.to_owned())
    }
}

impl VerificationCategory {
    /// The place of a value in the order of the values.
    pub open spec fn rank(self) -> u64 {
        match self {
            VerificationCategory::MemberAuthority => 0,
            VerificationCategory::StructuralComparison => 1,
            VerificationCategory::CompilerBoundary => 2,
            VerificationCategory::RelationshipAuthority => 3,
            VerificationCategory::UpstreamObligation => 4,
            VerificationCategory::ComparisonBoundary => 5,
        }
    }

    pub(crate) fn to_rank(self) -> (r: u64)
        ensures
            r == self.rank(),
    {
        match self {
            VerificationCategory::MemberAuthority => 0,
            VerificationCategory::StructuralComparison => 1,
            VerificationCategory::CompilerBoundary => 2,
            VerificationCategory::RelationshipAuthority => 3,
            VerificationCategory::UpstreamObligation => 4,
            VerificationCategory::ComparisonBoundary => 5,
        }
    }
}

/// The coverage of one target.
#[derive(Debug, PartialEq, Eq)]
pub struct CoverageDocumentEntry {
    pub target_id: String,
    pub required_categories: Vec<VerificationCategory>,
    pub handling: CoverageHandling,
}

/// The model of a [`CoverageDocumentEntry`].
pub struct CoverageDocumentEntryModel {
    pub target_id: Seq<char>,
    pub required_categories: Seq<VerificationCategory>,
    pub handling: CoverageHandlingModel,
}

impl DeepView for CoverageDocumentEntry {
    type V = CoverageDocumentEntryModel;

    open spec fn deep_view(&self) -> CoverageDocumentEntryModel {
        CoverageDocumentEntryModel {
            target_id: self.target_id.deep_view(),
            required_categories: self.required_categories.deep_view(),
            handling: self.handling.deep_view(),
        }
    }
}

impl Record for CoverageDocumentEntry {
    open spec fn json(v: CoverageDocumentEntryModel) -> JsonModel {
        JsonModel::object()
            .with("targetId"@, <String as Record>::json(v.target_id))
            .with("requiredCategories"@, <Vec<VerificationCategory> as Record>::json(v.required_categories))
            .with("handling"@, <CoverageHandling as Record>::json(v.handling))
    }

    fn copied(&self) -> (r: CoverageDocumentEntry) {
        CoverageDocumentEntry {
            target_id: self.target_id.copied(),
            required_categories: self.required_categories.copied(),
            handling: self.handling.copied(),
        }
    }

    fn same_as(&self, other: &CoverageDocumentEntry) -> (r: bool) {
        self.target_id.same_as(&other.target_id)
            && self.required_categories.same_as(&other.required_categories)
            && self.handling.same_as(&other.handling)
    }

    fn to_json(&self) -> (r: Json) {
        Json::object()
            .with("targetId", self.target_id.to_json())
            .with("requiredCategories", self.required_categories.to_json())
            .with("handling", self.handling.to_json())
    }
}

impl Keyed for CoverageDocumentEntry {
    open spec fn key(v: CoverageDocumentEntryModel) -> Seq<char> {
        v.target_id
    }

    fn key_text(&self) -> (r: &String) {
        &self.target_id
    }
}

/// The coverage of the targets of a change set.
#[derive(Debug, PartialEq, Eq)]
pub struct KotlinChangeCoverageDocument {
    pub schema: String,
    pub entries: Vec<CoverageDocumentEntry>,
}

/// The model of a [`KotlinChangeCoverageDocument`].
pub struct KotlinChangeCoverageDocumentModel {
    pub schema: Seq<char>,
    pub entries: Seq<CoverageDocumentEntryModel>,
}

impl DeepView for KotlinChangeCoverageDocument {
    type V = KotlinChangeCoverageDocumentModel;

    open spec fn deep_view(&self) -> KotlinChangeCoverageDocumentModel {
        KotlinChangeCoverageDocumentModel {
            schema: self.schema.deep_view(),
            entries: self.entries.deep_view(),
        }
    }
}

impl Record for KotlinChangeCoverageDocument {
    open spec fn json(v: KotlinChangeCoverageDocumentModel) -> JsonModel {
        JsonModel::object()
            .with("schema"@, <String as Record>::json(v.schema))
            .with("entries"@, <Vec<CoverageDocumentEntry> as Record>::json(v.entries))
    }

    fn copied(&self) -> (r: KotlinChangeCoverageDocument) {
        KotlinChangeCoverageDocument {
            schema: self.schema.copied(),
            entries: self.entries.copied(),
        }
    }

    fn same_as(&self, other: &KotlinChangeCoverageDocument) -> (r: bool) {
        self.schema.same_as(&other.schema)
            && self.entries.same_as(&other.entries)
    }

    fn to_json(&self) -> (r: Json) {
        Json::object()
            .with("schema", self.schema.to_json())
            .with("entries", self.entries.to_json())
    }
}

/// The role of a member in its pair.
#[derive(Clone, Copy, Debug, PartialEq, Eq, Structural)]
pub enum ChangeMemberRole {
    Provider,
    Consumer,
}

impl DeepView for ChangeMemberRole {
    type V = ChangeMemberRole;

    open spec fn deep_view(&self) -> ChangeMemberRole {
        *self
    }
}

impl ChangeMemberRole {
    /// The name that is written for a value.
    pub open spec fn name(self) -> Seq<char> {
        match self {
            ChangeMemberRole::Provider => "PROVIDER"@,
            ChangeMemberRole::Consumer => "CONSUMER"@,
        }
    }
}

impl Record for ChangeMemberRole {
    open spec fn json(v: ChangeMemberRole) -> JsonModel {
        JsonModel::Str(v.name())
    }

    fn copied(&self) -> (r: ChangeMemberRole) {
        *self
    }

    fn same_as(&self, other: &ChangeMemberRole) -> (r: bool) {
        *self == *other
    }

    fn to_json(&self) -> (r: Json) {
        let name = match self {
            ChangeMemberRole::Provider => "PROVIDER",
            ChangeMemberRole::Consumer => "CONSUMER",
        };
        Json::Str(name.to_owned())
    }
}

/// Where an obligation comes from.
#[derive(Clone, Copy, Debug, PartialEq, Eq, Structural)]
pub enum ChangeObligationPhase {
    Before,
    After,
    Comparison,
}

impl DeepView for ChangeObligationPhase {
    type V = ChangeObligationPhase;

    open spec fn deep_view(&self) -> ChangeObligationPhase {
        *self
    }
}

impl ChangeObligationPhase {
    /// The name that is written for a value.
    pub open spec fn name(self) -> Seq<char> {
        match self {
            ChangeObligationPhase::Before => "BEFORE"@,
            ChangeObligationPhase::After => "AFTER"@,
            ChangeObligationPhase::Comparison => "COMPARISON"@,
        }
    }
}

impl Record for ChangeObligationPhase {
    open spec fn json(v: ChangeObligationPhase) -> JsonModel {
        JsonModel::Str(v.name())
    }

    fn copied(&self) -> (r: ChangeObligationPhase) {
        *self
    }

    fn same_as(&self, other: &ChangeObligationPhase) -> (r: bool) {
        *self == *other
    }

    fn to_json(&self) -> (r: Json) {
        let name = match self {
            ChangeObligationPhase::Before => "BEFORE",
            ChangeObligationPhase::After => "AFTER",
            ChangeObligationPhase::Comparison => "COMPARISON",
        };
        Json::Str(name.to_owned())
    }
}

impl ChangeObligationPhase {
    /// The place of a value in the order of the values.
    pub open spec fn rank(self) -> u64 {
        match self {
            ChangeObligationPhase::Before => 0,
            ChangeObligationPhase::After => 1,
            ChangeObligationPhase::Comparison => 2,
        }
    }

    pub(crate) fn to_rank(self) -> (r: u64)
        ensures
            r == self.rank(),
    {
        match self {
            ChangeObligationPhase::Before => 0,
            ChangeObligationPhase::After => 1,
            ChangeObligationPhase::Comparison => 2,
        }
    }
}

/// What a comparison leaves to be done.
#[derive(Clone, Copy, Debug, PartialEq, Eq, Structural)]
pub enum ComparisonObligationCode {
    DisambiguateOverloadSet,
    VerifyUnsupportedComparison,
    VerifyTruncatedImpactEvidence,
}

impl DeepView for ComparisonObligationCode {
    type V = ComparisonObligationCode;

    open spec fn deep_view(&self) -> ComparisonObligationCode {
        *self
    }
}

impl ComparisonObligationCode {
    /// The name that is written for a value.
    pub open spec fn name(self) -> Seq<char> {
        match self {
            ComparisonObligationCode::DisambiguateOverloadSet => "DISAMBIGUATE_OVERLOAD_SET"@,
            ComparisonObligationCode::VerifyUnsupportedComparison => "VERIFY_UNSUPPORTED_COMPARISON"@,
            ComparisonObligationCode::VerifyTruncatedImpactEvidence => "VERIFY_TRUNCATED_IMPACT_EVIDENCE"@,
        }
    }
}

impl Record for ComparisonObligationCode {
    open spec fn json(v: ComparisonObligationCode) -> JsonModel {
        JsonModel::Str(v.name())
    }

    fn copied(&self) -> (r: ComparisonObligationCode) {
        *self
    }

    fn same_as(&self, other: &ComparisonObligationCode) -> (r: bool) {
        *self == *other
    }

    fn to_json(&self) -> (r: Json) {
        let name = match self {
            ComparisonObligationCode::DisambiguateOverloadSet => "DISAMBIGUATE_OVERLOAD_SET",
            ComparisonObligationCode::VerifyUnsupportedComparison => "VERIFY_UNSUPPORTED_COMPARISON",
            ComparisonObligationCode::VerifyTruncatedImpactEvidence => "VERIFY_TRUNCATED_IMPACT_EVIDENCE",
        };
        Json::Str(name.to_owned())
    }
}

impl ComparisonObligationCode {
    /// The place of a value in the order of the values.
    pub open spec fn rank(self) -> u64 {
        match self {
            ComparisonObligationCode::DisambiguateOverloadSet => 0,
            ComparisonObligationCode::VerifyUnsupportedComparison => 1,
            ComparisonObligationCode::VerifyTruncatedImpactEvidence => 2,
        }
    }

    pub(crate) fn to_rank(self) -> (r: u64)
        ensures
            r == self.rank(),
    {
        match self {
            ComparisonObligationCode::DisambiguateOverloadSet => 0,
            ComparisonObligationCode::VerifyUnsupportedComparison => 1,
            ComparisonObligationCode::VerifyTruncatedImpactEvidence => 2,
        }
    }
}

/// Something still to be done about a change.
#[derive(Debug, PartialEq, Eq)]
pub enum ChangeObligationDetail {
    Upstream {
        phase: ChangeObligationPhase,
        obligation: ImpactObligation,
    },
    Comparison {
        phase: ChangeObligationPhase,
        side: ImpactSide,
        code: ComparisonObligationCode,
        before_finding_ids: Vec<String>,
        after_finding_ids: Vec<String>,
    },
}

/// The model of a [`ChangeObligationDetail`].
pub enum ChangeObligationDetailModel {
    Upstream {
        phase: ChangeObligationPhase,
        obligation: ImpactObligationModel,
    },
    Comparison {
        phase: ChangeObligationPhase,
        side: ImpactSide,
        code: ComparisonObligationCode,
        before_finding_ids: Seq<Seq<char>>,
        after_finding_ids: Seq<Seq<char>>,
    },
}

impl DeepView for ChangeObligationDetail {
    type V = ChangeObligationDetailModel;

    open spec fn deep_view(&self) -> ChangeObligationDetailModel {
        match self {
            ChangeObligationDetail::Upstream { phase, obligation } => ChangeObligationDetailModel::Upstream {
                phase: phase.deep_view(),
                obligation: obligation.deep_view(),
            },
            ChangeObligationDetail::Comparison { phase, side, code, before_finding_ids, after_finding_ids } => ChangeObligationDetailModel::Comparison {
                phase: phase.deep_view(),
                side: side.deep_view(),
                code: code.deep_view(),
                before_finding_ids: before_finding_ids.deep_view(),
                after_finding_ids: after_finding_ids.deep_view(),
            },
        }
    }
}

impl Record for ChangeObligationDetail {
    open spec fn json(v: ChangeObligationDetailModel) -> JsonModel {
        match v {
            ChangeObligationDetailModel::Upstream { phase, obligation } => JsonModel::object()
                .with("phase"@, <ChangeObligationPhase as Record>::json(phase))
                .with("obligation"@, <ImpactObligation as Record>::json(obligation))
                .with("kind"@, JsonModel::Str("UPSTREAM"@)),
            ChangeObligationDetailModel::Comparison { phase, side, code, before_finding_ids, after_finding_ids } => JsonModel::object()
                .with("phase"@, <ChangeObligationPhase as Record>::json(phase))
                .with("side"@, <ImpactSide as Record>::json(side))
                .with("code"@, <ComparisonObligationCode as Record>::json(code))
                .with("beforeFindingIds"@, <Vec<String> as Record>::json(before_finding_ids))
                .with("afterFindingIds"@, <Vec<String> as Record>::json(after_finding_ids))
                .with("kind"@, JsonModel::Str("COMPARISON"@)),
        }
    }

    fn copied(&self) -> (r: ChangeObligationDetail) {
        match self {
            ChangeObligationDetail::Upstream { phase, obligation } => ChangeObligationDetail::Upstream {
                phase: phase.copied(),
                obligation: obligation.copied(),
            },
            ChangeObligationDetail::Comparison { phase, side, code, before_finding_ids, after_finding_ids } => ChangeObligationDetail::Comparison {
                phase: phase.copied(),
                side: side.copied(),
                code: code.copied(),
                before_finding_ids: before_finding_ids.copied(),
                after_finding_ids: after_finding_ids.copied(),
            },
        }
    }

    fn same_as(&self, other: &ChangeObligationDetail) -> (r: bool) {
        match (self, other) {
            (ChangeObligationDetail::Upstream { phase: a0, obligation: a1 }, ChangeObligationDetail::Upstream { phase: b0, obligation: b1 }) => a0.same_as(b0) && a1.same_as(b1),
            (ChangeObligationDetail::Comparison { phase: a0, side: a1, code: a2, before_finding_ids: a3, after_finding_ids: a4 }, ChangeObligationDetail::Comparison { phase: b0, side: b1, code: b2, before_finding_ids: b3, after_finding_ids: b4 }) => a0.same_as(b0) && a1.same_as(b1) && a2.same_as(b2) && a3.same_as(b3) && a4.same_as(b4),
            _ => false,
        }
    }

    fn to_json(&self) -> (r: Json) {
        match self {
            ChangeObligationDetail::Upstream { phase, obligation } => Json::object()
                .with("phase", phase.to_json())
                .with("obligation", obligation.to_json())
                .with("kind", Json::Str("UPSTREAM".to_owned())),
            ChangeObligationDetail::Comparison { phase, side, code, before_finding_ids, after_finding_ids } => Json::object()
                .with("phase", phase.to_json())
                .with("side", side.to_json())
                .with("code", code.to_json())
                .with("beforeFindingIds", before_finding_ids.to_json())
                .with("afterFindingIds", after_finding_ids.to_json())
                .with("kind", Json::Str("COMPARISON".to_owned())),
        }
    }
}

/// Something still to be done about a change, with its identity.
#[derive(Debug, PartialEq, Eq)]
pub struct ChangeObligation {
    pub obligation_id: String,
    pub detail: ChangeObligationDetail,
}

/// The model of a [`ChangeObligation`].
pub struct ChangeObligationModel {
    pub obligation_id: Seq<char>,
    pub detail: ChangeObligationDetailModel,
}

impl DeepView for ChangeObligation {
    type V = ChangeObligationModel;

    open spec fn deep_view(&self) -> ChangeObligationModel {
        ChangeObligationModel {
            obligation_id: self.obligation_id.deep_view(),
            detail: self.detail.deep_view(),
        }
    }
}

impl Record for ChangeObligation {
    open spec fn json(v: ChangeObligationModel) -> JsonModel {
        JsonModel::object()
            .with("obligationId"@, <String as Record>::json(v.obligation_id))
            .with("detail"@, <ChangeObligationDetail as Record>::json(v.detail))
    }

    fn copied(&self) -> (r: ChangeObligation) {
        ChangeObligation {
            obligation_id: self.obligation_id.copied(),
            detail: self.detail.copied(),
        }
    }

    fn same_as(&self, other: &ChangeObligation) -> (r: bool) {
        self.obligation_id.same_as(&other.obligation_id)
            && self.detail.same_as(&other.detail)
    }

    fn to_json(&self) -> (r: Json) {
        Json::object()
            .with("obligationId", self.obligation_id.to_json())
            .with("detail", self.detail.to_json())
    }
}

/// A declaration that was compared.
#[derive(Debug, PartialEq, Eq)]
pub struct ChangeDeclarationEvidence {
    pub finding_id: String,
    pub fact_id: String,
    pub member_alias: String,
    pub authority: ImpactFindingAuthority,
    pub declaration_kind: DeclarationKind,
    pub symbol_identity: String,
    pub compiler_callable_id: Option<String>,
    pub compiler_class_id: Option<String>,
    pub shape_digest: Option<String>,
    pub projected_shape: Json,
}

/// The model of a [`ChangeDeclarationEvidence`].
pub struct ChangeDeclarationEvidenceModel {
    pub finding_id: Seq<char>,
    pub fact_id: Seq<char>,
    pub member_alias: Seq<char>,
    pub authority: ImpactFindingAuthority,
    pub declaration_kind: DeclarationKind,
    pub symbol_identity: Seq<char>,
    pub compiler_callable_id: Option<Seq<char>>,
    pub compiler_class_id: Option<Seq<char>>,
    pub shape_digest: Option<Seq<char>>,
    pub projected_shape: JsonModel,
}

impl DeepView for ChangeDeclarationEvidence {
    type V = ChangeDeclarationEvidenceModel;

    open spec fn deep_view(&self) -> ChangeDeclarationEvidenceModel {
        ChangeDeclarationEvidenceModel {
            finding_id: self.finding_id.deep_view(),
            fact_id: self.fact_id.deep_view(),
            member_alias: self.member_alias.deep_view(),
            authority: self.authority.deep_view(),
            declaration_kind: self.declaration_kind.deep_view(),
            symbol_identity: self.symbol_identity.deep_view(),
            compiler_callable_id: self.compiler_callable_id.deep_view(),
            compiler_class_id: self.compiler_class_id.deep_view(),
            shape_digest: self.shape_digest.deep_view(),
            projected_shape: self.projected_shape.deep_view(),
        }
    }
}

impl Record for ChangeDeclarationEvidence {
    open spec fn json(v: ChangeDeclarationEvidenceModel) -> JsonModel {
        JsonModel::object()
            .with("findingId"@, <String as Record>::json(v.finding_id))
            .with("factId"@, <String as Record>::json(v.fact_id))
            .with("memberAlias"@, <String as Record>::json(v.member_alias))
            .with("authority"@, <ImpactFindingAuthority as Record>::json(v.authority))
            .with("declarationKind"@, <DeclarationKind as Record>::json(v.declaration_kind))
            .with("symbolIdentity"@, <String as Record>::json(v.symbol_identity))
            .with_some("compilerCallableId"@, match v.compiler_callable_id { Some(x) => Some(<String as Record>::json(x)), None => None })
            .with_some("compilerClassId"@, match v.compiler_class_id { Some(x) => Some(<String as Record>::json(x)), None => None })
            .with_some("shapeDigest"@, match v.shape_digest { Some(x) => Some(<String as Record>::json(x)), None => None })
            .with("projectedShape"@, <Json as Record>::json(v.projected_shape))
    }

    fn copied(&self) -> (r: ChangeDeclarationEvidence) {
        ChangeDeclarationEvidence {
            finding_id: self.finding_id.copied(),
            fact_id: self.fact_id.copied(),
            member_alias: self.member_alias.copied(),
            authority: self.authority.copied(),
            declaration_kind: self.declaration_kind.copied(),
            symbol_identity: self.symbol_identity.copied(),
            compiler_callable_id: self.compiler_callable_id.copied(),
            compiler_class_id: self.compiler_class_id.copied(),
            shape_digest: self.shape_digest.copied(),
            projected_shape: self.projected_shape.copied(),
        }
    }

    fn same_as(&self, other: &ChangeDeclarationEvidence) -> (r: bool) {
        self.finding_id.same_as(&other.finding_id)
            && self.fact_id.same_as(&other.fact_id)
            && self.member_alias.same_as(&other.member_alias)
            && self.authority.same_as(&other.authority)
            && self.declaration_kind.same_as(&other.declaration_kind)
            && self.symbol_identity.same_as(&other.symbol_identity)
            && self.compiler_callable_id.same_as(&other.compiler_callable_id)
            && self.compiler_class_id.same_as(&other.compiler_class_id)
            && self.shape_digest.same_as(&other.shape_digest)
            && self.projected_shape.same_as(&other.projected_shape)
    }

    fn to_json(&self) -> (r: Json) {
        Json::object()
            .with("findingId", self.finding_id.to_json())
            .with("factId", self.fact_id.to_json())
            .with("memberAlias", self.member_alias.to_json())
            .with("authority", self.authority.to_json())
            .with("declarationKind", self.declaration_kind.to_json())
            .with("symbolIdentity", self.symbol_identity.to_json())
            .with_some("compilerCallableId", match &self.compiler_callable_id { Some(x) => Some(x.to_json()), None => None })
            .with_some("compilerClassId", match &self.compiler_class_id { Some(x) => Some(x.to_json()), None => None })
            .with_some("shapeDigest", match &self.shape_digest { Some(x) => Some(x.to_json()), None => None })
            .with("projectedShape", self.projected_shape.to_json())
    }
}

impl Keyed for ChangeDeclarationEvidence {
    open spec fn key(v: ChangeDeclarationEvidenceModel) -> Seq<char> {
        v.symbol_identity
    }

    fn key_text(&self) -> (r: &String) {
        &self.symbol_identity
    }
}

/// A change that was observed.
#[derive(Debug, PartialEq, Eq)]
pub struct KotlinChangeObservation {
    pub observation_id: String,
    pub code: KotlinChangeCode,
    pub side: ImpactSide,
    pub before: Vec<ChangeDeclarationEvidence>,
    pub after: Vec<ChangeDeclarationEvidence>,
}

/// The model of a [`KotlinChangeObservation`].
pub struct KotlinChangeObservationModel {
    pub observation_id: Seq<char>,
    pub code: KotlinChangeCode,
    pub side: ImpactSide,
    pub before: Seq<ChangeDeclarationEvidenceModel>,
    pub after: Seq<ChangeDeclarationEvidenceModel>,
}

impl DeepView for KotlinChangeObservation {
    type V = KotlinChangeObservationModel;

    open spec fn deep_view(&self) -> KotlinChangeObservationModel {
        KotlinChangeObservationModel {
            observation_id: self.observation_id.deep_view(),
            code: self.code.deep_view(),
            side: self.side.deep_view(),
            before: self.before.deep_view(),
            after: self.after.deep_view(),
        }
    }
}

impl Record for KotlinChangeObservation {
    open spec fn json(v: KotlinChangeObservationModel) -> JsonModel {
        JsonModel::object()
            .with("observationId"@, <String as Record>::json(v.observation_id))
            .with("code"@, <KotlinChangeCode as Record>::json(v.code))
            .with("side"@, <ImpactSide as Record>::json(v.side))
            .with("before"@, <Vec<ChangeDeclarationEvidence> as Record>::json(v.before))
            .with("after"@, <Vec<ChangeDeclarationEvidence> as Record>::json(v.after))
    }

    fn copied(&self) -> (r: KotlinChangeObservation) {
        KotlinChangeObservation {
            observation_id: self.observation_id.copied(),
            code: self.code.copied(),
            side: self.side.copied(),
            before: self.before.copied(),
            after: self.after.copied(),
        }
    }

    fn same_as(&self, other: &KotlinChangeObservation) -> (r: bool) {
        self.observation_id.same_as(&other.observation_id)
            && self.code.same_as(&other.code)
            && self.side.same_as(&other.side)
            && self.before.same_as(&other.before)
            && self.after.same_as(&other.after)
    }

    fn to_json(&self) -> (r: Json) {
        Json::object()
            .with("observationId", self.observation_id.to_json())
            .with("code", self.code.to_json())
            .with("side", self.side.to_json())
            .with("before", self.before.to_json())
            .with("after", self.after.to_json())
    }
}

/// What a target is.
#[derive(Clone, Copy, Debug, PartialEq, Eq, Structural)]
pub enum CoverageTargetKind {
    DeclaredMember,
    Observation,
    Obligation,
}

impl DeepView for CoverageTargetKind {
    type V = CoverageTargetKind;

    open spec fn deep_view(&self) -> CoverageTargetKind {
        *self
    }
}

impl CoverageTargetKind {
    /// The name that is written for a value.
    pub open spec fn name(self) -> Seq<char> {
        match self {
            CoverageTargetKind::DeclaredMember => "DECLARED_MEMBER"@,
            CoverageTargetKind::Observation => "OBSERVATION"@,
            CoverageTargetKind::Obligation => "OBLIGATION"@,
        }
    }
}

impl Record for CoverageTargetKind {
    open spec fn json(v: CoverageTargetKind) -> JsonModel {
        JsonModel::Str(v.name())
    }

    fn copied(&self) -> (r: CoverageTargetKind) {
        *self
    }

    fn same_as(&self, other: &CoverageTargetKind) -> (r: bool) {
        *self == *other
    }

    fn to_json(&self) -> (r: Json) {
        let name = match self {
            CoverageTargetKind::DeclaredMember => "DECLARED_MEMBER",
            CoverageTargetKind::Observation => "OBSERVATION",
            CoverageTargetKind::Obligation => "OBLIGATION",
        };
        Json::Str(name.to_owned())
    }
}

/// What a target is about.
#[derive(Debug, PartialEq, Eq)]
pub enum CoverageTargetSubject {
    DeclaredMember {
        before_member_alias: String,
        after_member_alias: String,
        service_alias: String,
        role: ChangeMemberRole,
    },
    Observation {
        observation_id: String,
        code: KotlinChangeCode,
        side: ImpactSide,
    },
    Obligation {
        obligation_id: String,
        phase: ChangeObligationPhase,
    },
}

/// The model of a [`CoverageTargetSubject`].
pub enum CoverageTargetSubjectModel {
    DeclaredMember {
        before_member_alias: Seq<char>,
        after_member_alias: Seq<char>,
        service_alias: Seq<char>,
        role: ChangeMemberRole,
    },
    Observation {
        observation_id: Seq<char>,
        code: KotlinChangeCode,
        side: ImpactSide,
    },
    Obligation {
        obligation_id: Seq<char>,
        phase: ChangeObligationPhase,
    },
}

impl DeepView for CoverageTargetSubject {
    type V = CoverageTargetSubjectModel;

    open spec fn deep_view(&self) -> CoverageTargetSubjectModel {
        match self {
            CoverageTargetSubject::DeclaredMember { before_member_alias, after_member_alias, service_alias, role } => CoverageTargetSubjectModel::DeclaredMember {
                before_member_alias: before_member_alias.deep_view(),
                after_member_alias: after_member_alias.deep_view(),
                service_alias: service_alias.deep_view(),
                role: role.deep_view(),
            },
            CoverageTargetSubject::Observation { observation_id, code, side } => CoverageTargetSubjectModel::Observation {
                observation_id: observation_id.deep_view(),
                code: code.deep_view(),
                side: side.deep_view(),
            },
            CoverageTargetSubject::Obligation { obligation_id, phase } => CoverageTargetSubjectModel::Obligation {
                obligation_id: obligation_id.deep_view(),
                phase: phase.deep_view(),
            },
        }
    }
}

impl Record for CoverageTargetSubject {
    open spec fn json(v: CoverageTargetSubjectModel) -> JsonModel {
        match v {
            CoverageTargetSubjectModel::DeclaredMember { before_member_alias, after_member_alias, service_alias, role } => JsonModel::object()
                .with("beforeMemberAlias"@, <String as Record>::json(before_member_alias))
                .with("afterMemberAlias"@, <String as Record>::json(after_member_alias))
                .with("serviceAlias"@, <String as Record>::json(service_alias))
                .with("role"@, <ChangeMemberRole as Record>::json(role))
                .with("kind"@, JsonModel::Str("DECLARED_MEMBER"@)),
            CoverageTargetSubjectModel::Observation { observation_id, code, side } => JsonModel::object()
                .with("observationId"@, <String as Record>::json(observation_id))
                .with("code"@, <KotlinChangeCode as Record>::json(code))
                .with("side"@, <ImpactSide as Record>::json(side))
                .with("kind"@, JsonModel::Str("OBSERVATION"@)),
            CoverageTargetSubjectModel::Obligation { obligation_id, phase } => JsonModel::object()
                .with("obligationId"@, <String as Record>::json(obligation_id))
                .with("phase"@, <ChangeObligationPhase as Record>::json(phase))
                .with("kind"@, JsonModel::Str("OBLIGATION"@)),
        }
    }

    fn copied(&self) -> (r: CoverageTargetSubject) {
        match self {
            CoverageTargetSubject::DeclaredMember { before_member_alias, after_member_alias, service_alias, role } => CoverageTargetSubject::DeclaredMember {
                before_member_alias: before_member_alias.copied(),
                after_member_alias: after_member_alias.copied(),
                service_alias: service_alias.copied(),
                role: role.copied(),
            },
            CoverageTargetSubject::Observation { observation_id, code, side } => CoverageTargetSubject::Observation {
                observation_id: observation_id.copied(),
                code: code.copied(),
                side: side.copied(),
            },
            CoverageTargetSubject::Obligation { obligation_id, phase } => CoverageTargetSubject::Obligation {
                obligation_id: obligation_id.copied(),
                phase: phase.copied(),
            },
        }
    }

    fn same_as(&self, other: &CoverageTargetSubject) -> (r: bool) {
        match (self, other) {
            (CoverageTargetSubject::DeclaredMember { before_member_alias: a0, after_member_alias: a1, service_alias: a2, role: a3 }, CoverageTargetSubject::DeclaredMember { before_member_alias: b0, after_member_alias: b1, service_alias: b2, role: b3 }) => a0.same_as(b0) && a1.same_as(b1) && a2.same_as(b2) && a3.same_as(b3),
            (CoverageTargetSubject::Observation { observation_id: a0, code: a1, side: a2 }, CoverageTargetSubject::Observation { observation_id: b0, code: b1, side: b2 }) => a0.same_as(b0) && a1.same_as(b1) && a2.same_as(b2),
            (CoverageTargetSubject::Obligation { obligation_id: a0, phase: a1 }, CoverageTargetSubject::Obligation { obligation_id: b0, phase: b1 }) => a0.same_as(b0) && a1.same_as(b1),
            _ => false,
        }
    }

    fn to_json(&self) -> (r: Json) {
        match self {
            CoverageTargetSubject::DeclaredMember { before_member_alias, after_member_alias, service_alias, role } => Json::object()
                .with("beforeMemberAlias", before_member_alias.to_json())
                .with("afterMemberAlias", after_member_alias.to_json())
                .with("serviceAlias", service_alias.to_json())
                .with("role", role.to_json())
                .with("kind", Json::Str("DECLARED_MEMBER".to_owned())),
            CoverageTargetSubject::Observation { observation_id, code, side } => Json::object()
                .with("observationId", observation_id.to_json())
                .with("code", code.to_json())
                .with("side", side.to_json())
                .with("kind", Json::Str("OBSERVATION".to_owned())),
            CoverageTargetSubject::Obligation { obligation_id, phase } => Json::object()
                .with("obligationId", obligation_id.to_json())
                .with("phase", phase.to_json())
                .with("kind", Json::Str("OBLIGATION".to_owned())),
        }
    }
}

/// Something that is to be covered.
#[derive(Debug, PartialEq, Eq)]
pub struct CoverageTarget {
    pub target_id: String,
    pub target_kind: CoverageTargetKind,
    pub required_categories: Vec<VerificationCategory>,
    pub subject: CoverageTargetSubject,
}

/// The model of a [`CoverageTarget`].
pub struct CoverageTargetModel {
    pub target_id: Seq<char>,
    pub target_kind: CoverageTargetKind,
    pub required_categories: Seq<VerificationCategory>,
    pub subject: CoverageTargetSubjectModel,
}

impl DeepView for CoverageTarget {
    type V = CoverageTargetModel;

    open spec fn deep_view(&self) -> CoverageTargetModel {
        CoverageTargetModel {
            target_id: self.target_id.deep_view(),
            target_kind: self.target_kind.deep_view(),
            required_categories: self.required_categories.deep_view(),
            subject: self.subject.deep_view(),
        }
    }
}

impl Record for CoverageTarget {
    open spec fn json(v: CoverageTargetModel) -> JsonModel {
        JsonModel::object()
            .with("targetId"@, <String as Record>::json(v.target_id))
            .with("targetKind"@, <CoverageTargetKind as Record>::json(v.target_kind))
            .with("requiredCategories"@, <Vec<VerificationCategory> as Record>::json(v.required_categories))
            .with("subject"@, <CoverageTargetSubject as Record>::json(v.subject))
    }

    fn copied(&self) -> (r: CoverageTarget) {
        CoverageTarget {
            target_id: self.target_id.copied(),
            target_kind: self.target_kind.copied(),
            required_categories: self.required_categories.copied(),
            subject: self.subject.copied(),
        }
    }

    fn same_as(&self, other: &CoverageTarget) -> (r: bool) {
        self.target_id.same_as(&other.target_id)
            && self.target_kind.same_as(&other.target_kind)
            && self.required_categories.same_as(&other.required_categories)
            && self.subject.same_as(&other.subject)
    }

    fn to_json(&self) -> (r: Json) {
        Json::object()
            .with("targetId", self.target_id.to_json())
            .with("targetKind", self.target_kind.to_json())
            .with("requiredCategories", self.required_categories.to_json())
            .with("subject", self.subject.to_json())
    }
}

impl Keyed for CoverageTarget {
    open spec fn key(v: CoverageTargetModel) -> Seq<char> {
        v.target_id
    }

    fn key_text(&self) -> (r: &String) {
        &self.target_id
    }
}

/// Whether a target is covered, and how.
#[derive(Debug, PartialEq, Eq)]
pub struct CoverageValidationRow {
    pub target_id: String,
    pub target_kind: CoverageTargetKind,
    pub required_categories: Vec<VerificationCategory>,
    pub covered: bool,
    pub handling: Option<CoverageHandling>,
}

/// The model of a [`CoverageValidationRow`].
pub struct CoverageValidationRowModel {
    pub target_id: Seq<char>,
    pub target_kind: CoverageTargetKind,
    pub required_categories: Seq<VerificationCategory>,
    pub covered: bool,
    pub handling: Option<CoverageHandlingModel>,
}

impl DeepView for CoverageValidationRow {
    type V = CoverageValidationRowModel;

    open spec fn deep_view(&self) -> CoverageValidationRowModel {
        CoverageValidationRowModel {
            target_id: self.target_id.deep_view(),
            target_kind: self.target_kind.deep_view(),
            required_categories: self.required_categories.deep_view(),
            covered: self.covered.deep_view(),
            handling: self.handling.deep_view(),
        }
    }
}

impl Record for CoverageValidationRow {
    open spec fn json(v: CoverageValidationRowModel) -> JsonModel {
        JsonModel::object()
            .with("targetId"@, <String as Record>::json(v.target_id))
            .with("targetKind"@, <CoverageTargetKind as Record>::json(v.target_kind))
            .with("requiredCategories"@, <Vec<VerificationCategory> as Record>::json(v.required_categories))
            .with("covered"@, <bool as Record>::json(v.covered))
            .with_some("handling"@, match v.handling { Some(x) => Some(<CoverageHandling as Record>::json(x)), None => None })
    }

    fn copied(&self) -> (r: CoverageValidationRow) {
        CoverageValidationRow {
            target_id: self.target_id.copied(),
            target_kind: self.target_kind.copied(),
            required_categories: self.required_categories.copied(),
            covered: self.covered.copied(),
            handling: self.handling.copied(),
        }
    }

    fn same_as(&self, other: &CoverageValidationRow) -> (r: bool) {
        self.target_id.same_as(&other.target_id)
            && self.target_kind.same_as(&other.target_kind)
            && self.required_categories.same_as(&other.required_categories)
            && self.covered.same_as(&other.covered)
            && self.handling.same_as(&other.handling)
    }

    fn to_json(&self) -> (r: Json) {
        Json::object()
            .with("targetId", self.target_id.to_json())
            .with("targetKind", self.target_kind.to_json())
            .with("requiredCategories", self.required_categories.to_json())
            .with("covered", self.covered.to_json())
            .with_some("handling", match &self.handling { Some(x) => Some(x.to_json()), None => None })
    }
}

/// A compilation before and after the change.
#[derive(Debug, PartialEq, Eq)]
pub struct ChangeCompilationAuthority {
    pub compilation_id: String,
    pub semantic_authority: String,
    pub extractor_id: String,
    pub adapter_digest: String,
    pub runtime_digest: String,
    pub before_descriptor_coverage: GraphCoverage,
    pub after_descriptor_coverage: GraphCoverage,
    pub before_relation_coverage: GraphCoverage,
    pub after_relation_coverage: GraphCoverage,
}

/// The model of a [`ChangeCompilationAuthority`].
pub struct ChangeCompilationAuthorityModel {
    pub compilation_id: Seq<char>,
    pub semantic_authority: Seq<char>,
    pub extractor_id: Seq<char>,
    pub adapter_digest: Seq<char>,
    pub runtime_digest: Seq<char>,
    pub before_descriptor_coverage: GraphCoverage,
    pub after_descriptor_coverage: GraphCoverage,
    pub before_relation_coverage: GraphCoverage,
    pub after_relation_coverage: GraphCoverage,
}

impl DeepView for ChangeCompilationAuthority {
    type V = ChangeCompilationAuthorityModel;

    open spec fn deep_view(&self) -> ChangeCompilationAuthorityModel {
        ChangeCompilationAuthorityModel {
            compilation_id: self.compilation_id.deep_view(),
            semantic_authority: self.semantic_authority.deep_view(),
            extractor_id: self.extractor_id.deep_view(),
            adapter_digest: self.adapter_digest.deep_view(),
            runtime_digest: self.runtime_digest.deep_view(),
            before_descriptor_coverage: self.before_descriptor_coverage.deep_view(),
            after_descriptor_coverage: self.after_descriptor_coverage.deep_view(),
            before_relation_coverage: self.before_relation_coverage.deep_view(),
            after_relation_coverage: self.after_relation_coverage.deep_view(),
        }
    }
}

impl Record for ChangeCompilationAuthority {
    open spec fn json(v: ChangeCompilationAuthorityModel) -> JsonModel {
        JsonModel::object()
            .with("compilationId"@, <String as Record>::json(v.compilation_id))
            .with("semanticAuthority"@, <String as Record>::json(v.semantic_authority))
            .with("extractorId"@, <String as Record>::json(v.extractor_id))
            .with("adapterDigest"@, <String as Record>::json(v.adapter_digest))
            .with("runtimeDigest"@, <String as Record>::json(v.runtime_digest))
            .with("beforeDescriptorCoverage"@, <GraphCoverage as Record>::json(v.before_descriptor_coverage))
            .with("afterDescriptorCoverage"@, <GraphCoverage as Record>::json(v.after_descriptor_coverage))
            .with("beforeRelationCoverage"@, <GraphCoverage as Record>::json(v.before_relation_coverage))
            .with("afterRelationCoverage"@, <GraphCoverage as Record>::json(v.after_relation_coverage))
    }

    fn copied(&self) -> (r: ChangeCompilationAuthority) {
        ChangeCompilationAuthority {
            compilation_id: self.compilation_id.copied(),
            semantic_authority: self.semantic_authority.copied(),
            extractor_id: self.extractor_id.copied(),
            adapter_digest: self.adapter_digest.copied(),
            runtime_digest: self.runtime_digest.copied(),
            before_descriptor_coverage: self.before_descriptor_coverage.copied(),
            after_descriptor_coverage: self.after_descriptor_coverage.copied(),
            before_relation_coverage: self.before_relation_coverage.copied(),
            after_relation_coverage: self.after_relation_coverage.copied(),
        }
    }

    fn same_as(&self, other: &ChangeCompilationAuthority) -> (r: bool) {
        self.compilation_id.same_as(&other.compilation_id)
            && self.semantic_authority.same_as(&other.semantic_authority)
            && self.extractor_id.same_as(&other.extractor_id)
            && self.adapter_digest.same_as(&other.adapter_digest)
            && self.runtime_digest.same_as(&other.runtime_digest)
            && self.before_descriptor_coverage.same_as(&other.before_descriptor_coverage)
            && self.after_descriptor_coverage.same_as(&other.after_descriptor_coverage)
            && self.before_relation_coverage.same_as(&other.before_relation_coverage)
            && self.after_relation_coverage.same_as(&other.after_relation_coverage)
    }

    fn to_json(&self) -> (r: Json) {
        Json::object()
            .with("compilationId", self.compilation_id.to_json())
            .with("semanticAuthority", self.semantic_authority.to_json())
            .with("extractorId", self.extractor_id.to_json())
            .with("adapterDigest", self.adapter_digest.to_json())
            .with("runtimeDigest", self.runtime_digest.to_json())
            .with("beforeDescriptorCoverage", self.before_descriptor_coverage.to_json())
            .with("afterDescriptorCoverage", self.after_descriptor_coverage.to_json())
            .with("beforeRelationCoverage", self.before_relation_coverage.to_json())
            .with("afterRelationCoverage", self.after_relation_coverage.to_json())
    }
}

/// The runtime of a member before and after the change.
#[derive(Debug, PartialEq, Eq)]
pub struct ChangeRuntimeAuthority {
    pub before_member_alias: String,
    pub after_member_alias: String,
    pub runtime_key: String,
    pub runtime_mode: RuntimeMode,
    pub compilation_authorities: Vec<ChangeCompilationAuthority>,
}

/// The model of a [`ChangeRuntimeAuthority`].
pub struct ChangeRuntimeAuthorityModel {
    pub before_member_alias: Seq<char>,
    pub after_member_alias: Seq<char>,
    pub runtime_key: Seq<char>,
    pub runtime_mode: RuntimeMode,
    pub compilation_authorities: Seq<ChangeCompilationAuthorityModel>,
}

impl DeepView for ChangeRuntimeAuthority {
    type V = ChangeRuntimeAuthorityModel;

    open spec fn deep_view(&self) -> ChangeRuntimeAuthorityModel {
        ChangeRuntimeAuthorityModel {
            before_member_alias: self.before_member_alias.deep_view(),
            after_member_alias: self.after_member_alias.deep_view(),
            runtime_key: self.runtime_key.deep_view(),
            runtime_mode: self.runtime_mode.deep_view(),
            compilation_authorities: self.compilation_authorities.deep_view(),
        }
    }
}

impl Record for ChangeRuntimeAuthority {
    open spec fn json(v: ChangeRuntimeAuthorityModel) -> JsonModel {
        JsonModel::object()
            .with("beforeMemberAlias"@, <String as Record>::json(v.before_member_alias))
            .with("afterMemberAlias"@, <String as Record>::json(v.after_member_alias))
            .with("runtimeKey"@, <String as Record>::json(v.runtime_key))
            .with("runtimeMode"@, <RuntimeMode as Record>::json(v.runtime_mode))
            .with("compilationAuthorities"@, <Vec<ChangeCompilationAuthority> as Record>::json(v.compilation_authorities))
    }

    fn copied(&self) -> (r: ChangeRuntimeAuthority) {
        ChangeRuntimeAuthority {
            before_member_alias: self.before_member_alias.copied(),
            after_member_alias: self.after_member_alias.copied(),
            runtime_key: self.runtime_key.copied(),
            runtime_mode: self.runtime_mode.copied(),
            compilation_authorities: self.compilation_authorities.copied(),
        }
    }

    fn same_as(&self, other: &ChangeRuntimeAuthority) -> (r: bool) {
        self.before_member_alias.same_as(&other.before_member_alias)
            && self.after_member_alias.same_as(&other.after_member_alias)
            && self.runtime_key.same_as(&other.runtime_key)
            && self.runtime_mode.same_as(&other.runtime_mode)
            && self.compilation_authorities.same_as(&other.compilation_authorities)
    }

    fn to_json(&self) -> (r: Json) {
        Json::object()
            .with("beforeMemberAlias", self.before_member_alias.to_json())
            .with("afterMemberAlias", self.after_member_alias.to_json())
            .with("runtimeKey", self.runtime_key.to_json())
            .with("runtimeMode", self.runtime_mode.to_json())
            .with("compilationAuthorities", self.compilation_authorities.to_json())
    }
}

/// What one side of a change is bound to.
#[derive(Debug, PartialEq, Eq)]
pub struct ChangeSideAuthority {
    pub thread_id: String,
    pub thread_authority_digest: String,
    pub thread_semantic_digest: String,
    pub fact_set_id: String,
    pub fact_set_authority_digest: String,
    pub fact_set_binding_digest: String,
    pub profile_digest: String,
    pub impact_id: String,
    pub impact_authority_digest: String,
    pub impact_binding_digest: String,
    pub pair_id: String,
    pub callable_id: String,
    pub relationship_authority: RelationshipAuthority,
}

/// The model of a [`ChangeSideAuthority`].
pub struct ChangeSideAuthorityModel {
    pub thread_id: Seq<char>,
    pub thread_authority_digest: Seq<char>,
    pub thread_semantic_digest: Seq<char>,
    pub fact_set_id: Seq<char>,
    pub fact_set_authority_digest: Seq<char>,
    pub fact_set_binding_digest: Seq<char>,
    pub profile_digest: Seq<char>,
    pub impact_id: Seq<char>,
    pub impact_authority_digest: Seq<char>,
    pub impact_binding_digest: Seq<char>,
    pub pair_id: Seq<char>,
    pub callable_id: Seq<char>,
    pub relationship_authority: RelationshipAuthority,
}

impl DeepView for ChangeSideAuthority {
    type V = ChangeSideAuthorityModel;

    open spec fn deep_view(&self) -> ChangeSideAuthorityModel {
        ChangeSideAuthorityModel {
            thread_id: self.thread_id.deep_view(),
            thread_authority_digest: self.thread_authority_digest.deep_view(),
            thread_semantic_digest: self.thread_semantic_digest.deep_view(),
            fact_set_id: self.fact_set_id.deep_view(),
            fact_set_authority_digest: self.fact_set_authority_digest.deep_view(),
            fact_set_binding_digest: self.fact_set_binding_digest.deep_view(),
            profile_digest: self.profile_digest.deep_view(),
            impact_id: self.impact_id.deep_view(),
            impact_authority_digest: self.impact_authority_digest.deep_view(),
            impact_binding_digest: self.impact_binding_digest.deep_view(),
            pair_id: self.pair_id.deep_view(),
            callable_id: self.callable_id.deep_view(),
            relationship_authority: self.relationship_authority.deep_view(),
        }
    }
}

impl Record for ChangeSideAuthority {
    open spec fn json(v: ChangeSideAuthorityModel) -> JsonModel {
        JsonModel::object()
            .with("threadId"@, <String as Record>::json(v.thread_id))
            .with("threadAuthorityDigest"@, <String as Record>::json(v.thread_authority_digest))
            .with("threadSemanticDigest"@, <String as Record>::json(v.thread_semantic_digest))
            .with("factSetId"@, <String as Record>::json(v.fact_set_id))
            .with("factSetAuthorityDigest"@, <String as Record>::json(v.fact_set_authority_digest))
            .with("factSetBindingDigest"@, <String as Record>::json(v.fact_set_binding_digest))
            .with("profileDigest"@, <String as Record>::json(v.profile_digest))
            .with("impactId"@, <String as Record>::json(v.impact_id))
            .with("impactAuthorityDigest"@, <String as Record>::json(v.impact_authority_digest))
            .with("impactBindingDigest"@, <String as Record>::json(v.impact_binding_digest))
            .with("pairId"@, <String as Record>::json(v.pair_id))
            .with("callableId"@, <String as Record>::json(v.callable_id))
            .with("relationshipAuthority"@, <RelationshipAuthority as Record>::json(v.relationship_authority))
    }

    fn copied(&self) -> (r: ChangeSideAuthority) {
        ChangeSideAuthority {
            thread_id: self.thread_id.copied(),
            thread_authority_digest: self.thread_authority_digest.copied(),
            thread_semantic_digest: self.thread_semantic_digest.copied(),
            fact_set_id: self.fact_set_id.copied(),
            fact_set_authority_digest: self.fact_set_authority_digest.copied(),
            fact_set_binding_digest: self.fact_set_binding_digest.copied(),
            profile_digest: self.profile_digest.copied(),
            impact_id: self.impact_id.copied(),
            impact_authority_digest: self.impact_authority_digest.copied(),
            impact_binding_digest: self.impact_binding_digest.copied(),
            pair_id: self.pair_id.copied(),
            callable_id: self.callable_id.copied(),
            relationship_authority: self.relationship_authority.copied(),
        }
    }

    fn same_as(&self, other: &ChangeSideAuthority) -> (r: bool) {
        self.thread_id.same_as(&other.thread_id)
            && self.thread_authority_digest.same_as(&other.thread_authority_digest)
            && self.thread_semantic_digest.same_as(&other.thread_semantic_digest)
            && self.fact_set_id.same_as(&other.fact_set_id)
            && self.fact_set_authority_digest.same_as(&other.fact_set_authority_digest)
            && self.fact_set_binding_digest.same_as(&other.fact_set_binding_digest)
            && self.profile_digest.same_as(&other.profile_digest)
            && self.impact_id.same_as(&other.impact_id)
            && self.impact_authority_digest.same_as(&other.impact_authority_digest)
            && self.impact_binding_digest.same_as(&other.impact_binding_digest)
            && self.pair_id.same_as(&other.pair_id)
            && self.callable_id.same_as(&other.callable_id)
            && self.relationship_authority.same_as(&other.relationship_authority)
    }

    fn to_json(&self) -> (r: Json) {
        Json::object()
            .with("threadId", self.thread_id.to_json())
            .with("threadAuthorityDigest", self.thread_authority_digest.to_json())
            .with("threadSemanticDigest", self.thread_semantic_digest.to_json())
            .with("factSetId", self.fact_set_id.to_json())
            .with("factSetAuthorityDigest", self.fact_set_authority_digest.to_json())
            .with("factSetBindingDigest", self.fact_set_binding_digest.to_json())
            .with("profileDigest", self.profile_digest.to_json())
            .with("impactId", self.impact_id.to_json())
            .with("impactAuthorityDigest", self.impact_authority_digest.to_json())
            .with("impactBindingDigest", self.impact_binding_digest.to_json())
            .with("pairId", self.pair_id.to_json())
            .with("callableId", self.callable_id.to_json())
            .with("relationshipAuthority", self.relationship_authority.to_json())
    }
}

/// The evidence of a change set.
#[derive(Debug, PartialEq, Eq)]
pub struct KotlinChangeCoverageEvidence {
    pub schema: String,
    pub comparison_digest: String,
    pub validation_binding_digest: String,
    pub rules_digest: String,
    pub before: ChangeSideAuthority,
    pub after: ChangeSideAuthority,
    pub runtime_authorities: Vec<ChangeRuntimeAuthority>,
    pub validator_runtime: ValidatorRuntimeAuthority,
    pub member_correspondence: Vec<MemberCorrespondence>,
    pub observations: Vec<KotlinChangeObservation>,
    pub obligations: Vec<ChangeObligation>,
    pub targets: Vec<CoverageTarget>,
    pub coverage_document: KotlinChangeCoverageDocument,
    pub validation_rows: Vec<CoverageValidationRow>,
}

/// The model of a [`KotlinChangeCoverageEvidence`].
pub struct KotlinChangeCoverageEvidenceModel {
    pub schema: Seq<char>,
    pub comparison_digest: Seq<char>,
    pub validation_binding_digest: Seq<char>,
    pub rules_digest: Seq<char>,
    pub before: ChangeSideAuthorityModel,
    pub after: ChangeSideAuthorityModel,
    pub runtime_authorities: Seq<ChangeRuntimeAuthorityModel>,
    pub validator_runtime: ValidatorRuntimeAuthorityModel,
    pub member_correspondence: Seq<MemberCorrespondenceModel>,
    pub observations: Seq<KotlinChangeObservationModel>,
    pub obligations: Seq<ChangeObligationModel>,
    pub targets: Seq<CoverageTargetModel>,
    pub coverage_document: KotlinChangeCoverageDocumentModel,
    pub validation_rows: Seq<CoverageValidationRowModel>,
}

impl DeepView for KotlinChangeCoverageEvidence {
    type V = KotlinChangeCoverageEvidenceModel;

    open spec fn deep_view(&self) -> KotlinChangeCoverageEvidenceModel {
        KotlinChangeCoverageEvidenceModel {
            schema: self.schema.deep_view(),
            comparison_digest: self.comparison_digest.deep_view(),
            validation_binding_digest: self.validation_binding_digest.deep_view(),
            rules_digest: self.rules_digest.deep_view(),
            before: self.before.deep_view(),
            after: self.after.deep_view(),
            runtime_authorities: self.runtime_authorities.deep_view(),
            validator_runtime: self.validator_runtime.deep_view(),
            member_correspondence: self.member_correspondence.deep_view(),
            observations: self.observations.deep_view(),
            obligations: self.obligations.deep_view(),
            targets: self.targets.deep_view(),
            coverage_document: self.coverage_document.deep_view(),
            validation_rows: self.validation_rows.deep_view(),
        }
    }
}

impl Record for KotlinChangeCoverageEvidence {
    open spec fn json(v: KotlinChangeCoverageEvidenceModel) -> JsonModel {
        JsonModel::object()
            .with("schema"@, <String as Record>::json(v.schema))
            .with("comparisonDigest"@, <String as Record>::json(v.comparison_digest))
            .with("validationBindingDigest"@, <String as Record>::json(v.validation_binding_digest))
            .with("rulesDigest"@, <String as Record>::json(v.rules_digest))
            .with("before"@, <ChangeSideAuthority as Record>::json(v.before))
            .with("after"@, <ChangeSideAuthority as Record>::json(v.after))
            .with("runtimeAuthorities"@, <Vec<ChangeRuntimeAuthority> as Record>::json(v.runtime_authorities))
            .with("validatorRuntime"@, <ValidatorRuntimeAuthority as Record>::json(v.validator_runtime))
            .with("memberCorrespondence"@, <Vec<MemberCorrespondence> as Record>::json(v.member_correspondence))
            .with("observations"@, <Vec<KotlinChangeObservation> as Record>::json(v.observations))
            .with("obligations"@, <Vec<ChangeObligation> as Record>::json(v.obligations))
            .with("targets"@, <Vec<CoverageTarget> as Record>::json(v.targets))
            .with("coverageDocument"@, <KotlinChangeCoverageDocument as Record>::json(v.coverage_document))
            .with("validationRows"@, <Vec<CoverageValidationRow> as Record>::json(v.validation_rows))
    }

    fn copied(&self) -> (r: KotlinChangeCoverageEvidence) {
        KotlinChangeCoverageEvidence {
            schema: self.schema.copied(),
            comparison_digest: self.comparison_digest.copied(),
            validation_binding_digest: self.validation_binding_digest.copied(),
            rules_digest: self.rules_digest.copied(),
            before: self.before.copied(),
            after: self.after.copied(),
            runtime_authorities: self.runtime_authorities.copied(),
            validator_runtime: self.validator_runtime.copied(),
            member_correspondence: self.member_correspondence.copied(),
            observations: self.observations.copied(),
            obligations: self.obligations.copied(),
            targets: self.targets.copied(),
            coverage_document: self.coverage_document.copied(),
            validation_rows: self.validation_rows.copied(),
        }
    }

    fn same_as(&self, other: &KotlinChangeCoverageEvidence) -> (r: bool) {
        self.schema.same_as(&other.schema)
            && self.comparison_digest.same_as(&other.comparison_digest)
            && self.validation_binding_digest.same_as(&other.validation_binding_digest)
            && self.rules_digest.same_as(&other.rules_digest)
            && self.before.same_as(&other.before)
            && self.after.same_as(&other.after)
            && self.runtime_authorities.same_as(&other.runtime_authorities)
            && self.validator_runtime.same_as(&other.validator_runtime)
            && self.member_correspondence.same_as(&other.member_correspondence)
            && self.observations.same_as(&other.observations)
            && self.obligations.same_as(&other.obligations)
            && self.targets.same_as(&other.targets)
            && self.coverage_document.same_as(&other.coverage_document)
            && self.validation_rows.same_as(&other.validation_rows)
    }

    fn to_json(&self) -> (r: Json) {
        Json::object()
            .with("schema", self.schema.to_json())
            .with("comparisonDigest", self.comparison_digest.to_json())
            .with("validationBindingDigest", self.validation_binding_digest.to_json())
            .with("rulesDigest", self.rules_digest.to_json())
            .with("before", self.before.to_json())
            .with("after", self.after.to_json())
            .with("runtimeAuthorities", self.runtime_authorities.to_json())
            .with("validatorRuntime", self.validator_runtime.to_json())
            .with("memberCorrespondence", self.member_correspondence.to_json())
            .with("observations", self.observations.to_json())
            .with("obligations", self.obligations.to_json())
            .with("targets", self.targets.to_json())
            .with("coverageDocument", self.coverage_document.to_json())
            .with("validationRows", self.validation_rows.to_json())
    }
}

/// What is shown of a target.
#[derive(Debug, PartialEq, Eq)]
pub struct CoverageTargetProjection {
    pub target_id: String,
    pub target_kind: CoverageTargetKind,
    pub required_categories: Vec<VerificationCategory>,
    pub subject: CoverageTargetSubject,
}

/// The model of a [`CoverageTargetProjection`].
pub struct CoverageTargetProjectionModel {
    pub target_id: Seq<char>,
    pub target_kind: CoverageTargetKind,
    pub required_categories: Seq<VerificationCategory>,
    pub subject: CoverageTargetSubjectModel,
}

impl DeepView for CoverageTargetProjection {
    type V = CoverageTargetProjectionModel;

    open spec fn deep_view(&self) -> CoverageTargetProjectionModel {
        CoverageTargetProjectionModel {
            target_id: self.target_id.deep_view(),
            target_kind: self.target_kind.deep_view(),
            required_categories: self.required_categories.deep_view(),
            subject: self.subject.deep_view(),
        }
    }
}

impl Record for CoverageTargetProjection {
    open spec fn json(v: CoverageTargetProjectionModel) -> JsonModel {
        JsonModel::object()
            .with("targetId"@, <String as Record>::json(v.target_id))
            .with("targetKind"@, <CoverageTargetKind as Record>::json(v.target_kind))
            .with("requiredCategories"@, <Vec<VerificationCategory> as Record>::json(v.required_categories))
            .with("subject"@, <CoverageTargetSubject as Record>::json(v.subject))
    }

    fn copied(&self) -> (r: CoverageTargetProjection) {
        CoverageTargetProjection {
            target_id: self.target_id.copied(),
            target_kind: self.target_kind.copied(),
            required_categories: self.required_categories.copied(),
            subject: self.subject.copied(),
        }
    }

    fn same_as(&self, other: &CoverageTargetProjection) -> (r: bool) {
        self.target_id.same_as(&other.target_id)
            && self.target_kind.same_as(&other.target_kind)
            && self.required_categories.same_as(&other.required_categories)
            && self.subject.same_as(&other.subject)
    }

    fn to_json(&self) -> (r: Json) {
        Json::object()
            .with("targetId", self.target_id.to_json())
            .with("targetKind", self.target_kind.to_json())
            .with("requiredCategories", self.required_categories.to_json())
            .with("subject", self.subject.to_json())
    }
}

/// What a change set is bound to.
#[derive(Debug, PartialEq, Eq)]
pub struct ThreadChangeSetAuthority {
    pub schema: String,
    pub authority_digest: String,
    pub comparison_digest: String,
    pub validation_binding_digest: String,
    pub rules_digest: String,
    pub before: ChangeSideAuthority,
    pub after: ChangeSideAuthority,
    pub runtime_authorities: Vec<ChangeRuntimeAuthority>,
    pub validator_runtime: ValidatorRuntimeAuthority,
    pub member_correspondence: Vec<MemberCorrespondence>,
    pub status: ChangeSetStatus,
    pub member_target_count: usize,
    pub observation_count: usize,
    pub obligation_count: usize,
    pub target_count: usize,
    pub covered_target_count: usize,
    pub missing_target_count: usize,
    pub public_missing_targets: Vec<CoverageTargetProjection>,
    pub public_covered_target_ids: Vec<String>,
    pub public_covered_targets_truncated: bool,
    pub coverage_document_ref: CasObject,
    pub evidence_ref: CasObject,
    pub direct_cas_closure: Vec<CasObject>,
    pub retained_cas_bytes: usize,
    pub new_derived_cas_object_count: usize,
    pub budgets: ChangeSetBudgets,
}

/// The model of a [`ThreadChangeSetAuthority`].
pub struct ThreadChangeSetAuthorityModel {
    pub schema: Seq<char>,
    pub authority_digest: Seq<char>,
    pub comparison_digest: Seq<char>,
    pub validation_binding_digest: Seq<char>,
    pub rules_digest: Seq<char>,
    pub before: ChangeSideAuthorityModel,
    pub after: ChangeSideAuthorityModel,
    pub runtime_authorities: Seq<ChangeRuntimeAuthorityModel>,
    pub validator_runtime: ValidatorRuntimeAuthorityModel,
    pub member_correspondence: Seq<MemberCorrespondenceModel>,
    pub status: ChangeSetStatus,
    pub member_target_count: usize,
    pub observation_count: usize,
    pub obligation_count: usize,
    pub target_count: usize,
    pub covered_target_count: usize,
    pub missing_target_count: usize,
    pub public_missing_targets: Seq<CoverageTargetProjectionModel>,
    pub public_covered_target_ids: Seq<Seq<char>>,
    pub public_covered_targets_truncated: bool,
    pub coverage_document_ref: CasObjectModel,
    pub evidence_ref: CasObjectModel,
    pub direct_cas_closure: Seq<CasObjectModel>,
    pub retained_cas_bytes: usize,
    pub new_derived_cas_object_count: usize,
    pub budgets: ChangeSetBudgetsModel,
}

impl DeepView for ThreadChangeSetAuthority {
    type V = ThreadChangeSetAuthorityModel;

    open spec fn deep_view(&self) -> ThreadChangeSetAuthorityModel {
        ThreadChangeSetAuthorityModel {
            schema: self.schema.deep_view(),
            authority_digest: self.authority_digest.deep_view(),
            comparison_digest: self.comparison_digest.deep_view(),
            validation_binding_digest: self.validation_binding_digest.deep_view(),
            rules_digest: self.rules_digest.deep_view(),
            before: self.before.deep_view(),
            after: self.after.deep_view(),
            runtime_authorities: self.runtime_authorities.deep_view(),
            validator_runtime: self.validator_runtime.deep_view(),
            member_correspondence: self.member_correspondence.deep_view(),
            status: self.status.deep_view(),
            member_target_count: self.member_target_count.deep_view(),
            observation_count: self.observation_count.deep_view(),
            obligation_count: self.obligation_count.deep_view(),
            target_count: self.target_count.deep_view(),
            covered_target_count: self.covered_target_count.deep_view(),
            missing_target_count: self.missing_target_count.deep_view(),
            public_missing_targets: self.public_missing_targets.deep_view(),
            public_covered_target_ids: self.public_covered_target_ids.deep_view(),
            public_covered_targets_truncated: self.public_covered_targets_truncated.deep_view(),
            coverage_document_ref: self.coverage_document_ref.deep_view(),
            evidence_ref: self.evidence_ref.deep_view(),
            direct_cas_closure: self.direct_cas_closure.deep_view(),
            retained_cas_bytes: self.retained_cas_bytes.deep_view(),
            new_derived_cas_object_count: self.new_derived_cas_object_count.deep_view(),
            budgets: self.budgets.deep_view(),
        }
    }
}

impl Record for ThreadChangeSetAuthority {
    open spec fn json(v: ThreadChangeSetAuthorityModel) -> JsonModel {
        JsonModel::object()
            .with("schema"@, <String as Record>::json(v.schema))
            .with("authorityDigest"@, <String as Record>::json(v.authority_digest))
            .with("comparisonDigest"@, <String as Record>::json(v.comparison_digest))
            .with("validationBindingDigest"@, <String as Record>::json(v.validation_binding_digest))
            .with("rulesDigest"@, <String as Record>::json(v.rules_digest))
            .with("before"@, <ChangeSideAuthority as Record>::json(v.before))
            .with("after"@, <ChangeSideAuthority as Record>::json(v.after))
            .with("runtimeAuthorities"@, <Vec<ChangeRuntimeAuthority> as Record>::json(v.runtime_authorities))
            .with("validatorRuntime"@, <ValidatorRuntimeAuthority as Record>::json(v.validator_runtime))
            .with("memberCorrespondence"@, <Vec<MemberCorrespondence> as Record>::json(v.member_correspondence))
            .with("status"@, <ChangeSetStatus as Record>::json(v.status))
            .with("memberTargetCount"@, <usize as Record>::json(v.member_target_count))
            .with("observationCount"@, <usize as Record>::json(v.observation_count))
            .with("obligationCount"@, <usize as Record>::json(v.obligation_count))
            .with("targetCount"@, <usize as Record>::json(v.target_count))
            .with("coveredTargetCount"@, <usize as Record>::json(v.covered_target_count))
            .with("missingTargetCount"@, <usize as Record>::json(v.missing_target_count))
            .with("publicMissingTargets"@, <Vec<CoverageTargetProjection> as Record>::json(v.public_missing_targets))
            .with("publicCoveredTargetIds"@, <Vec<String> as Record>::json(v.public_covered_target_ids))
            .with("publicCoveredTargetsTruncated"@, <bool as Record>::json(v.public_covered_targets_truncated))
            .with("coverageDocumentRef"@, <CasObject as Record>::json(v.coverage_document_ref))
            .with("evidenceRef"@, <CasObject as Record>::json(v.evidence_ref))
            .with("directCasClosure"@, <Vec<CasObject> as Record>::json(v.direct_cas_closure))
            .with("retainedCasBytes"@, <usize as Record>::json(v.retained_cas_bytes))
            .with("newDerivedCasObjectCount"@, <usize as Record>::json(v.new_derived_cas_object_count))
            .with("budgets"@, <ChangeSetBudgets as Record>::json(v.budgets))
    }

    fn copied(&self) -> (r: ThreadChangeSetAuthority) {
        ThreadChangeSetAuthority {
            schema: self.schema.copied(),
            authority_digest: self.authority_digest.copied(),
            comparison_digest: self.comparison_digest.copied(),
            validation_binding_digest: self.validation_binding_digest.copied(),
            rules_digest: self.rules_digest.copied(),
            before: self.before.copied(),
            after: self.after.copied(),
            runtime_authorities: self.runtime_authorities.copied(),
            validator_runtime: self.validator_runtime.copied(),
            member_correspondence: self.member_correspondence.copied(),
            status: self.status.copied(),
            member_target_count: self.member_target_count.copied(),
            observation_count: self.observation_count.copied(),
            obligation_count: self.obligation_count.copied(),
            target_count: self.target_count.copied(),
            covered_target_count: self.covered_target_count.copied(),
            missing_target_count: self.missing_target_count.copied(),
            public_missing_targets: self.public_missing_targets.copied(),
            public_covered_target_ids: self.public_covered_target_ids.copied(),
            public_covered_targets_truncated: self.public_covered_targets_truncated.copied(),
            coverage_document_ref: self.coverage_document_ref.copied(),
            evidence_ref: self.evidence_ref.copied(),
            direct_cas_closure: self.direct_cas_closure.copied(),
            retained_cas_bytes: self.retained_cas_bytes.copied(),
            new_derived_cas_object_count: self.new_derived_cas_object_count.copied(),
            budgets: self.budgets.copied(),
        }
    }

    fn same_as(&self, other: &ThreadChangeSetAuthority) -> (r: bool) {
        self.schema.same_as(&other.schema)
            && self.authority_digest.same_as(&other.authority_digest)
            && self.comparison_digest.same_as(&other.comparison_digest)
            && self.validation_binding_digest.same_as(&other.validation_binding_digest)
            && self.rules_digest.same_as(&other.rules_digest)
            && self.before.same_as(&other.before)
            && self.after.same_as(&other.after)
            && self.runtime_authorities.same_as(&other.runtime_authorities)
            && self.validator_runtime.same_as(&other.validator_runtime)
            && self.member_correspondence.same_as(&other.member_correspondence)
            && self.status.same_as(&other.status)
            && self.member_target_count.same_as(&other.member_target_count)
            && self.observation_count.same_as(&other.observation_count)
            && self.obligation_count.same_as(&other.obligation_count)
            && self.target_count.same_as(&other.target_count)
            && self.covered_target_count.same_as(&other.covered_target_count)
            && self.missing_target_count.same_as(&other.missing_target_count)
            && self.public_missing_targets.same_as(&other.public_missing_targets)
            && self.public_covered_target_ids.same_as(&other.public_covered_target_ids)
            && self.public_covered_targets_truncated.same_as(&other.public_covered_targets_truncated)
            && self.coverage_document_ref.same_as(&other.coverage_document_ref)
            && self.evidence_ref.same_as(&other.evidence_ref)
            && self.direct_cas_closure.same_as(&other.direct_cas_closure)
            && self.retained_cas_bytes.same_as(&other.retained_cas_bytes)
            && self.new_derived_cas_object_count.same_as(&other.new_derived_cas_object_count)
            && self.budgets.same_as(&other.budgets)
    }

    fn to_json(&self) -> (r: Json) {
        Json::object()
            .with("schema", self.schema.to_json())
            .with("authorityDigest", self.authority_digest.to_json())
            .with("comparisonDigest", self.comparison_digest.to_json())
            .with("validationBindingDigest", self.validation_binding_digest.to_json())
            .with("rulesDigest", self.rules_digest.to_json())
            .with("before", self.before.to_json())
            .with("after", self.after.to_json())
            .with("runtimeAuthorities", self.runtime_authorities.to_json())
            .with("validatorRuntime", self.validator_runtime.to_json())
            .with("memberCorrespondence", self.member_correspondence.to_json())
            .with("status", self.status.to_json())
            .with("memberTargetCount", self.member_target_count.to_json())
            .with("observationCount", self.observation_count.to_json())
            .with("obligationCount", self.obligation_count.to_json())
            .with("targetCount", self.target_count.to_json())
            .with("coveredTargetCount", self.covered_target_count.to_json())
            .with("missingTargetCount", self.missing_target_count.to_json())
            .with("publicMissingTargets", self.public_missing_targets.to_json())
            .with("publicCoveredTargetIds", self.public_covered_target_ids.to_json())
            .with("publicCoveredTargetsTruncated", self.public_covered_targets_truncated.to_json())
            .with("coverageDocumentRef", self.coverage_document_ref.to_json())
            .with("evidenceRef", self.evidence_ref.to_json())
            .with("directCasClosure", self.direct_cas_closure.to_json())
            .with("retainedCasBytes", self.retained_cas_bytes.to_json())
            .with("newDerivedCasObjectCount", self.new_derived_cas_object_count.to_json())
            .with("budgets", self.budgets.to_json())
    }
}

/// What is shown of a change set.
#[derive(Debug, PartialEq, Eq)]
pub struct ThreadChangeSetProjection {
    pub schema: String,
    pub change_set_id: String,
    pub authority_digest: String,
    pub comparison_digest: String,
    pub validation_binding_digest: String,
    pub rules_digest: String,
    pub before_thread_id: String,
    pub after_thread_id: String,
    pub callable_id: String,
    pub status: ChangeSetStatus,
    pub member_target_count: usize,
    pub observation_count: usize,
    pub obligation_count: usize,
    pub target_count: usize,
    pub covered_target_count: usize,
    pub missing_target_count: usize,
    pub missing_targets: Vec<CoverageTargetProjection>,
    pub covered_target_ids: Vec<String>,
    pub covered_targets_truncated: bool,
    pub coverage_document_ref: CasObject,
    pub evidence_ref: CasObject,
}

/// The model of a [`ThreadChangeSetProjection`].
pub struct ThreadChangeSetProjectionModel {
    pub schema: Seq<char>,
    pub change_set_id: Seq<char>,
    pub authority_digest: Seq<char>,
    pub comparison_digest: Seq<char>,
    pub validation_binding_digest: Seq<char>,
    pub rules_digest: Seq<char>,
    pub before_thread_id: Seq<char>,
    pub after_thread_id: Seq<char>,
    pub callable_id: Seq<char>,
    pub status: ChangeSetStatus,
    pub member_target_count: usize,
    pub observation_count: usize,
    pub obligation_count: usize,
    pub target_count: usize,
    pub covered_target_count: usize,
    pub missing_target_count: usize,
    pub missing_targets: Seq<CoverageTargetProjectionModel>,
    pub covered_target_ids: Seq<Seq<char>>,
    pub covered_targets_truncated: bool,
    pub coverage_document_ref: CasObjectModel,
    pub evidence_ref: CasObjectModel,
}

impl DeepView for ThreadChangeSetProjection {
    type V = ThreadChangeSetProjectionModel;

    open spec fn deep_view(&self) -> ThreadChangeSetProjectionModel {
        ThreadChangeSetProjectionModel {
            schema: self.schema.deep_view(),
            change_set_id: self.change_set_id.deep_view(),
            authority_digest: self.authority_digest.deep_view(),
            comparison_digest: self.comparison_digest.deep_view(),
            validation_binding_digest: self.validation_binding_digest.deep_view(),
            rules_digest: self.rules_digest.deep_view(),
            before_thread_id: self.before_thread_id.deep_view(),
            after_thread_id: self.after_thread_id.deep_view(),
            callable_id: self.callable_id.deep_view(),
            status: self.status.deep_view(),
            member_target_count: self.member_target_count.deep_view(),
            observation_count: self.observation_count.deep_view(),
            obligation_count: self.obligation_count.deep_view(),
            target_count: self.target_count.deep_view(),
            covered_target_count: self.covered_target_count.deep_view(),
            missing_target_count: self.missing_target_count.deep_view(),
            missing_targets: self.missing_targets.deep_view(),
            covered_target_ids: self.covered_target_ids.deep_view(),
            covered_targets_truncated: self.covered_targets_truncated.deep_view(),
            coverage_document_ref: self.coverage_document_ref.deep_view(),
            evidence_ref: self.evidence_ref.deep_view(),
        }
    }
}

impl Record for ThreadChangeSetProjection {
    open spec fn json(v: ThreadChangeSetProjectionModel) -> JsonModel {
        JsonModel::object()
            .with("schema"@, <String as Record>::json(v.schema))
            .with("changeSetId"@, <String as Record>::json(v.change_set_id))
            .with("authorityDigest"@, <String as Record>::json(v.authority_digest))
            .with("comparisonDigest"@, <String as Record>::json(v.comparison_digest))
            .with("validationBindingDigest"@, <String as Record>::json(v.validation_binding_digest))
            .with("rulesDigest"@, <String as Record>::json(v.rules_digest))
            .with("beforeThreadId"@, <String as Record>::json(v.before_thread_id))
            .with("afterThreadId"@, <String as Record>::json(v.after_thread_id))
            .with("callableId"@, <String as Record>::json(v.callable_id))
            .with("status"@, <ChangeSetStatus as Record>::json(v.status))
            .with("memberTargetCount"@, <usize as Record>::json(v.member_target_count))
            .with("observationCount"@, <usize as Record>::json(v.observation_count))
            .with("obligationCount"@, <usize as Record>::json(v.obligation_count))
            .with("targetCount"@, <usize as Record>::json(v.target_count))
            .with("coveredTargetCount"@, <usize as Record>::json(v.covered_target_count))
            .with("missingTargetCount"@, <usize as Record>::json(v.missing_target_count))
            .with("missingTargets"@, <Vec<CoverageTargetProjection> as Record>::json(v.missing_targets))
            .with("coveredTargetIds"@, <Vec<String> as Record>::json(v.covered_target_ids))
            .with("coveredTargetsTruncated"@, <bool as Record>::json(v.covered_targets_truncated))
            .with("coverageDocumentRef"@, <CasObject as Record>::json(v.coverage_document_ref))
            .with("evidenceRef"@, <CasObject as Record>::json(v.evidence_ref))
    }

    fn copied(&self) -> (r: ThreadChangeSetProjection) {
        ThreadChangeSetProjection {
            schema: self.schema.copied(),
            change_set_id: self.change_set_id.copied(),
            authority_digest: self.authority_digest.copied(),
            comparison_digest: self.comparison_digest.copied(),
            validation_binding_digest: self.validation_binding_digest.copied(),
            rules_digest: self.rules_digest.copied(),
            before_thread_id: self.before_thread_id.copied(),
            after_thread_id: self.after_thread_id.copied(),
            callable_id: self.callable_id.copied(),
            status: self.status.copied(),
            member_target_count: self.member_target_count.copied(),
            observation_count: self.observation_count.copied(),
            obligation_count: self.obligation_count.copied(),
            target_count: self.target_count.copied(),
            covered_target_count: self.covered_target_count.copied(),
            missing_target_count: self.missing_target_count.copied(),
            missing_targets: self.missing_targets.copied(),
            covered_target_ids: self.covered_target_ids.copied(),
            covered_targets_truncated: self.covered_targets_truncated.copied(),
            coverage_document_ref: self.coverage_document_ref.copied(),
            evidence_ref: self.evidence_ref.copied(),
        }
    }

    fn same_as(&self, other: &ThreadChangeSetProjection) -> (r: bool) {
        self.schema.same_as(&other.schema)
            && self.change_set_id.same_as(&other.change_set_id)
            && self.authority_digest.same_as(&other.authority_digest)
            && self.comparison_digest.same_as(&other.comparison_digest)
            && self.validation_binding_digest.same_as(&other.validation_binding_digest)
            && self.rules_digest.same_as(&other.rules_digest)
            && self.before_thread_id.same_as(&other.before_thread_id)
            && self.after_thread_id.same_as(&other.after_thread_id)
            && self.callable_id.same_as(&other.callable_id)
            && self.status.same_as(&other.status)
            && self.member_target_count.same_as(&other.member_target_count)
            && self.observation_count.same_as(&other.observation_count)
            && self.obligation_count.same_as(&other.obligation_count)
            && self.target_count.same_as(&other.target_count)
            && self.covered_target_count.same_as(&other.covered_target_count)
            && self.missing_target_count.same_as(&other.missing_target_count)
            && self.missing_targets.same_as(&other.missing_targets)
            && self.covered_target_ids.same_as(&other.covered_target_ids)
            && self.covered_targets_truncated.same_as(&other.covered_targets_truncated)
            && self.coverage_document_ref.same_as(&other.coverage_document_ref)
            && self.evidence_ref.same_as(&other.evidence_ref)
    }

    fn to_json(&self) -> (r: Json) {
        Json::object()
            .with("schema", self.schema.to_json())
            .with("changeSetId", self.change_set_id.to_json())
            .with("authorityDigest", self.authority_digest.to_json())
            .with("comparisonDigest", self.comparison_digest.to_json())
            .with("validationBindingDigest", self.validation_binding_digest.to_json())
            .with("rulesDigest", self.rules_digest.to_json())
            .with("beforeThreadId", self.before_thread_id.to_json())
            .with("afterThreadId", self.after_thread_id.to_json())
            .with("callableId", self.callable_id.to_json())
            .with("status", self.status.to_json())
            .with("memberTargetCount", self.member_target_count.to_json())
            .with("observationCount", self.observation_count.to_json())
            .with("obligationCount", self.obligation_count.to_json())
            .with("targetCount", self.target_count.to_json())
            .with("coveredTargetCount", self.covered_target_count.to_json())
            .with("missingTargetCount", self.missing_target_count.to_json())
            .with("missingTargets", self.missing_targets.to_json())
            .with("coveredTargetIds", self.covered_target_ids.to_json())
            .with("coveredTargetsTruncated", self.covered_targets_truncated.to_json())
            .with("coverageDocumentRef", self.coverage_document_ref.to_json())
            .with("evidenceRef", self.evidence_ref.to_json())
    }
}

/// A change set with everything that is to be published of it.
pub struct PreparedThreadChangeSet {
    pub authority: ThreadChangeSetAuthority,
    pub evidence: KotlinChangeCoverageEvidence,
    pub coverage_document: KotlinChangeCoverageDocument,
    pub coverage_document_object: PreparedCasObject,
    pub evidence_object: PreparedCasObject,
    pub authority_bytes: Vec<u8>,
    pub projection: ThreadChangeSetProjection,
    pub projection_bytes: Vec<u8>,
}

/// The model of a [`PreparedThreadChangeSet`].
pub struct PreparedThreadChangeSetModel {
    pub authority: ThreadChangeSetAuthorityModel,
    pub evidence: KotlinChangeCoverageEvidenceModel,
    pub coverage_document: KotlinChangeCoverageDocumentModel,
    pub coverage_document_object: PreparedCasObjectModel,
    pub evidence_object: PreparedCasObjectModel,
    pub authority_bytes: Seq<u8>,
    pub projection: ThreadChangeSetProjectionModel,
    pub projection_bytes: Seq<u8>,
}

impl DeepView for PreparedThreadChangeSet {
    type V = PreparedThreadChangeSetModel;

    open spec fn deep_view(&self) -> PreparedThreadChangeSetModel {
        PreparedThreadChangeSetModel {
            authority: self.authority.deep_view(),
            evidence: self.evidence.deep_view(),
            coverage_document: self.coverage_document.deep_view(),
            coverage_document_object: self.coverage_document_object.deep_view(),
            evidence_object: self.evidence_object.deep_view(),
            authority_bytes: self.authority_bytes@,
            projection: self.projection.deep_view(),
            projection_bytes: self.projection_bytes@,
        }
    }
}

impl PreparedThreadChangeSet {
    /// Another value with the same contents.
    pub fn copied(&self) -> (r: PreparedThreadChangeSet)
        ensures
            r.deep_view() == self.deep_view(),
    {
        PreparedThreadChangeSet {
            authority: self.authority.copied(),
            evidence: self.evidence.copied(),
            coverage_document: self.coverage_document.copied(),
            coverage_document_object: self.coverage_document_object.copied(),
            evidence_object: self.evidence_object.copied(),
            authority_bytes: copy_bytes(&self.authority_bytes),
            projection: self.projection.copied(),
            projection_bytes: copy_bytes(&self.projection_bytes),
        }
    }

    /// Whether two values have the same contents.
    pub fn same_as(&self, other: &PreparedThreadChangeSet) -> (r: bool)
        ensures
            r == (self.deep_view() == other.deep_view()),
    {
        self.authority.same_as(&other.authority)
            && self.evidence.same_as(&other.evidence)
            && self.coverage_document.same_as(&other.coverage_document)
            && self.coverage_document_object.same_as(&other.coverage_document_object)
            && self.evidence_object.same_as(&other.evidence_object)
            && same_bytes(self.authority_bytes.as_slice(), other.authority_bytes.as_slice())
            && self.projection.same_as(&other.projection)
            && same_bytes(self.projection_bytes.as_slice(), other.projection_bytes.as_slice())
    }
}

/// What a rule means.
#[derive(Clone, Copy, Debug, PartialEq, Eq, Structural)]
pub enum ChangeRuleSemantics {
    ObservationOnly,
}

impl DeepView for ChangeRuleSemantics {
    type V = ChangeRuleSemantics;

    open spec fn deep_view(&self) -> ChangeRuleSemantics {
        *self
    }
}

impl ChangeRuleSemantics {
    /// The name that is written for a value.
    pub open spec fn name(self) -> Seq<char> {
        match self {
            ChangeRuleSemantics::ObservationOnly => "OBSERVATION_ONLY"@,
        }
    }
}

impl Record for ChangeRuleSemantics {
    open spec fn json(v: ChangeRuleSemantics) -> JsonModel {
        JsonModel::Str(v.name())
    }

    fn copied(&self) -> (r: ChangeRuleSemantics) {
        *self
    }

    fn same_as(&self, other: &ChangeRuleSemantics) -> (r: bool) {
        *self == *other
    }

    fn to_json(&self) -> (r: Json) {
        let name = match self {
            ChangeRuleSemantics::ObservationOnly => "OBSERVATION_ONLY",
        };
        Json::Str(name.to_owned())
    }
}

/// What a rule looks at.
#[derive(Clone, Copy, Debug, PartialEq, Eq, Structural)]
pub enum ChangeRuleInput {
    CallableFamilyAppears,
    CallableFamilyDisappears,
    UnmatchedOverloadSet,
    JvmDescriptor,
    ParameterIndexAndTypeIgnoringTopLevelNullability,
    ReturnOrDeclaredTypeIgnoringTopLevelNullability,
    ReceiverTypeIgnoringTopLevelNullability,
    ExplicitReturnDeclaredParameterReceiverNullability,
    TypeParameterIndexesAndBounds,
    VisibilityEffectiveVisibilityExportBoundary,
    Modality,
    OverrideStatus,
    UnknownPartialAmbiguousBoundaryOrResidualShape,
}

impl DeepView for ChangeRuleInput {
    type V = ChangeRuleInput;

    open spec fn deep_view(&self) -> ChangeRuleInput {
        *self
    }
}

impl ChangeRuleInput {
    /// The name that is written for a value.
    pub open spec fn name(self) -> Seq<char> {
        match self {
            ChangeRuleInput::CallableFamilyAppears => "CALLABLE_FAMILY_APPEARS"@,
            ChangeRuleInput::CallableFamilyDisappears => "CALLABLE_FAMILY_DISAPPEARS"@,
            ChangeRuleInput::UnmatchedOverloadSet => "UNMATCHED_OVERLOAD_SET"@,
            ChangeRuleInput::JvmDescriptor => "JVM_DESCRIPTOR"@,
            ChangeRuleInput::ParameterIndexAndTypeIgnoringTopLevelNullability => "PARAMETER_INDEX_AND_TYPE_IGNORING_TOP_LEVEL_NULLABILITY"@,
            ChangeRuleInput::ReturnOrDeclaredTypeIgnoringTopLevelNullability => "RETURN_OR_DECLARED_TYPE_IGNORING_TOP_LEVEL_NULLABILITY"@,
            ChangeRuleInput::ReceiverTypeIgnoringTopLevelNullability => "RECEIVER_TYPE_IGNORING_TOP_LEVEL_NULLABILITY"@,
            ChangeRuleInput::ExplicitReturnDeclaredParameterReceiverNullability => "EXPLICIT_RETURN_DECLARED_PARAMETER_RECEIVER_NULLABILITY"@,
            ChangeRuleInput::TypeParameterIndexesAndBounds => "TYPE_PARAMETER_INDEXES_AND_BOUNDS"@,
            ChangeRuleInput::VisibilityEffectiveVisibilityExportBoundary => "VISIBILITY_EFFECTIVE_VISIBILITY_EXPORT_BOUNDARY"@,
            ChangeRuleInput::Modality => "MODALITY"@,
            ChangeRuleInput::OverrideStatus => "OVERRIDE_STATUS"@,
            ChangeRuleInput::UnknownPartialAmbiguousBoundaryOrResidualShape => "UNKNOWN_PARTIAL_AMBIGUOUS_BOUNDARY_OR_RESIDUAL_SHAPE"@,
        }
    }
}

impl Record for ChangeRuleInput {
    open spec fn json(v: ChangeRuleInput) -> JsonModel {
        JsonModel::Str(v.name())
    }

    fn copied(&self) -> (r: ChangeRuleInput) {
        *self
    }

    fn same_as(&self, other: &ChangeRuleInput) -> (r: bool) {
        *self == *other
    }

    fn to_json(&self) -> (r: Json) {
        let name = match self {
            ChangeRuleInput::CallableFamilyAppears => "CALLABLE_FAMILY_APPEARS",
            ChangeRuleInput::CallableFamilyDisappears => "CALLABLE_FAMILY_DISAPPEARS",
            ChangeRuleInput::UnmatchedOverloadSet => "UNMATCHED_OVERLOAD_SET",
            ChangeRuleInput::JvmDescriptor => "JVM_DESCRIPTOR",
            ChangeRuleInput::ParameterIndexAndTypeIgnoringTopLevelNullability => "PARAMETER_INDEX_AND_TYPE_IGNORING_TOP_LEVEL_NULLABILITY",
            ChangeRuleInput::ReturnOrDeclaredTypeIgnoringTopLevelNullability => "RETURN_OR_DECLARED_TYPE_IGNORING_TOP_LEVEL_NULLABILITY",
            ChangeRuleInput::ReceiverTypeIgnoringTopLevelNullability => "RECEIVER_TYPE_IGNORING_TOP_LEVEL_NULLABILITY",
            ChangeRuleInput::ExplicitReturnDeclaredParameterReceiverNullability => "EXPLICIT_RETURN_DECLARED_PARAMETER_RECEIVER_NULLABILITY",
            ChangeRuleInput::TypeParameterIndexesAndBounds => "TYPE_PARAMETER_INDEXES_AND_BOUNDS",
            ChangeRuleInput::VisibilityEffectiveVisibilityExportBoundary => "VISIBILITY_EFFECTIVE_VISIBILITY_EXPORT_BOUNDARY",
            ChangeRuleInput::Modality => "MODALITY",
            ChangeRuleInput::OverrideStatus => "OVERRIDE_STATUS",
            ChangeRuleInput::UnknownPartialAmbiguousBoundaryOrResidualShape => "UNKNOWN_PARTIAL_AMBIGUOUS_BOUNDARY_OR_RESIDUAL_SHAPE",
        };
        Json::Str(name.to_owned())
    }
}

/// A rule: what it looks at and what it observes.
#[derive(Debug, PartialEq, Eq)]
pub struct KotlinChangeRule {
    pub input: ChangeRuleInput,
    pub output: KotlinChangeCode,
    pub semantics: ChangeRuleSemantics,
}

/// The model of a [`KotlinChangeRule`].
pub struct KotlinChangeRuleModel {
    pub input: ChangeRuleInput,
    pub output: KotlinChangeCode,
    pub semantics: ChangeRuleSemantics,
}

impl DeepView for KotlinChangeRule {
    type V = KotlinChangeRuleModel;

    open spec fn deep_view(&self) -> KotlinChangeRuleModel {
        KotlinChangeRuleModel {
            input: self.input.deep_view(),
            output: self.output.deep_view(),
            semantics: self.semantics.deep_view(),
        }
    }
}

impl Record for KotlinChangeRule {
    open spec fn json(v: KotlinChangeRuleModel) -> JsonModel {
        JsonModel::object()
            .with("input"@, <ChangeRuleInput as Record>::json(v.input))
            .with("output"@, <KotlinChangeCode as Record>::json(v.output))
            .with("semantics"@, <ChangeRuleSemantics as Record>::json(v.semantics))
    }

    fn copied(&self) -> (r: KotlinChangeRule) {
        KotlinChangeRule {
            input: self.input.copied(),
            output: self.output.copied(),
            semantics: self.semantics.copied(),
        }
    }

    fn same_as(&self, other: &KotlinChangeRule) -> (r: bool) {
        self.input.same_as(&other.input)
            && self.output.same_as(&other.output)
            && self.semantics.same_as(&other.semantics)
    }

    fn to_json(&self) -> (r: Json) {
        Json::object()
            .with("input", self.input.to_json())
            .with("output", self.output.to_json())
            .with("semantics", self.semantics.to_json())
    }
}

/// The rules of a comparison.
#[derive(Debug, PartialEq, Eq)]
pub struct KotlinChangeRules {
    pub schema: String,
    pub rows: Vec<KotlinChangeRule>,
    pub verdict_semantics: ChangeRuleSemantics,
}

/// The model of a [`KotlinChangeRules`].
pub struct KotlinChangeRulesModel {
    pub schema: Seq<char>,
    pub rows: Seq<KotlinChangeRuleModel>,
    pub verdict_semantics: ChangeRuleSemantics,
}

impl DeepView for KotlinChangeRules {
    type V = KotlinChangeRulesModel;

    open spec fn deep_view(&self) -> KotlinChangeRulesModel {
        KotlinChangeRulesModel {
            schema: self.schema.deep_view(),
            rows: self.rows.deep_view(),
            verdict_semantics: self.verdict_semantics.deep_view(),
        }
    }
}

impl Record for KotlinChangeRules {
    open spec fn json(v: KotlinChangeRulesModel) -> JsonModel {
        JsonModel::object()
            .with("schema"@, <String as Record>::json(v.schema))
            .with("rows"@, <Vec<KotlinChangeRule> as Record>::json(v.rows))
            .with("verdictSemantics"@, <ChangeRuleSemantics as Record>::json(v.verdict_semantics))
    }

    fn copied(&self) -> (r: KotlinChangeRules) {
        KotlinChangeRules {
            schema: self.schema.copied(),
            rows: self.rows.copied(),
            verdict_semantics: self.verdict_semantics.copied(),
        }
    }

    fn same_as(&self, other: &KotlinChangeRules) -> (r: bool) {
        self.schema.same_as(&other.schema)
            && self.rows.same_as(&other.rows)
            && self.verdict_semantics.same_as(&other.verdict_semantics)
    }

    fn to_json(&self) -> (r: Json) {
        Json::object()
            .with("schema", self.schema.to_json())
            .with("rows", self.rows.to_json())
            .with("verdictSemantics", self.verdict_semantics.to_json())
    }
}

/// The rule from an input to an output.
pub open spec fn rule_of(input: ChangeRuleInput, output: KotlinChangeCode) -> KotlinChangeRuleModel {
    KotlinChangeRuleModel { input, output, semantics: ChangeRuleSemantics::ObservationOnly }
}

/// The rule from an input to an output.
pub fn rule(input: ChangeRuleInput, output: KotlinChangeCode) -> (r: KotlinChangeRule)
    ensures
        r.deep_view() == rule_of(input, output),
{
    KotlinChangeRule { input, output, semantics: ChangeRuleSemantics::ObservationOnly }
}

/// The frozen rules.
pub open spec fn frozen_rules() -> KotlinChangeRulesModel {
    KotlinChangeRulesModel {
        schema: KOTLIN_CHANGE_RULES_SCHEMA@,
        rows: seq![
            rule_of(ChangeRuleInput::CallableFamilyAppears, KotlinChangeCode::KcdCallableAdded),
            rule_of(ChangeRuleInput::CallableFamilyDisappears, KotlinChangeCode::KcdCallableRemoved),
            rule_of(ChangeRuleInput::UnmatchedOverloadSet, KotlinChangeCode::KcdOverloadSetChanged),
            rule_of(ChangeRuleInput::JvmDescriptor, KotlinChangeCode::KcdJvmDescriptorChanged),
            rule_of(ChangeRuleInput::ParameterIndexAndTypeIgnoringTopLevelNullability, KotlinChangeCode::KcdParameterTypesChanged),
            rule_of(ChangeRuleInput::ReturnOrDeclaredTypeIgnoringTopLevelNullability, KotlinChangeCode::KcdReturnTypeChanged),
            rule_of(ChangeRuleInput::ReceiverTypeIgnoringTopLevelNullability, KotlinChangeCode::KcdReceiverTypeChanged),
            rule_of(ChangeRuleInput::ExplicitReturnDeclaredParameterReceiverNullability, KotlinChangeCode::KcdNullabilityChanged),
            rule_of(ChangeRuleInput::TypeParameterIndexesAndBounds, KotlinChangeCode::KcdTypeParameterBoundsChanged),
            rule_of(ChangeRuleInput::VisibilityEffectiveVisibilityExportBoundary, KotlinChangeCode::KcdVisibilityChanged),
            rule_of(ChangeRuleInput::Modality, KotlinChangeCode::KcdModalityChanged),
            rule_of(ChangeRuleInput::OverrideStatus, KotlinChangeCode::KcdOverrideStatusChanged),
            rule_of(ChangeRuleInput::UnknownPartialAmbiguousBoundaryOrResidualShape, KotlinChangeCode::KcdUnsupportedComparison),
        ],
        verdict_semantics: ChangeRuleSemantics::ObservationOnly,
    }
}

/// The digest of some rules.
pub fn rules_digest_for(rules: &KotlinChangeRules) -> (r: String)
    ensures
        r@ == json_digest(<KotlinChangeRules as Record>::json(rules.deep_view())),
{
    hash(&rules.to_json())
}

/// The digest of the frozen rules.
pub open spec fn frozen_rules_digest() -> Seq<char> {
    json_digest(<KotlinChangeRules as Record>::json(frozen_rules()))
}

fn rules_digest() -> (r: String)
    ensures
        r@ == frozen_rules_digest(),
{
    let rows = vec![
        rule(ChangeRuleInput::CallableFamilyAppears, KotlinChangeCode::KcdCallableAdded),
        rule(ChangeRuleInput::CallableFamilyDisappears, KotlinChangeCode::KcdCallableRemoved),
        rule(ChangeRuleInput::UnmatchedOverloadSet, KotlinChangeCode::KcdOverloadSetChanged),
        rule(ChangeRuleInput::JvmDescriptor, KotlinChangeCode::KcdJvmDescriptorChanged),
        rule(ChangeRuleInput::ParameterIndexAndTypeIgnoringTopLevelNullability, KotlinChangeCode::KcdParameterTypesChanged),
        rule(ChangeRuleInput::ReturnOrDeclaredTypeIgnoringTopLevelNullability, KotlinChangeCode::KcdReturnTypeChanged),
        rule(ChangeRuleInput::ReceiverTypeIgnoringTopLevelNullability, KotlinChangeCode::KcdReceiverTypeChanged),
        rule(ChangeRuleInput::ExplicitReturnDeclaredParameterReceiverNullability, KotlinChangeCode::KcdNullabilityChanged),
        rule(ChangeRuleInput::TypeParameterIndexesAndBounds, KotlinChangeCode::KcdTypeParameterBoundsChanged),
        rule(ChangeRuleInput::VisibilityEffectiveVisibilityExportBoundary, KotlinChangeCode::KcdVisibilityChanged),
        rule(ChangeRuleInput::Modality, KotlinChangeCode::KcdModalityChanged),
        rule(ChangeRuleInput::OverrideStatus, KotlinChangeCode::KcdOverrideStatusChanged),
        rule(ChangeRuleInput::UnknownPartialAmbiguousBoundaryOrResidualShape, KotlinChangeCode::KcdUnsupportedComparison),
    ];
    assert(rows.deep_view() =~= frozen_rules().rows);
    rules_digest_for(
        &KotlinChangeRules {
            schema: KOTLIN_CHANGE_RULES_SCHEMA.to_owned(),
            rows,
            verdict_semantics: ChangeRuleSemantics::ObservationOnly,
        },
    )
}

impl Ordered for MemberCorrespondence {
    open spec fn parts(v: MemberCorrespondenceModel) -> Seq<PartModel> {
        seq![PartModel::Text(v.before_member_alias), PartModel::Text(v.after_member_alias)]
    }

    fn to_parts(&self) -> (r: Vec<Part>) {
        let r = vec![
            Part::Text(self.before_member_alias.clone()),
            Part::Text(self.after_member_alias.clone()),
        ];
        assert(r.deep_view() =~= Self::parts(self.deep_view()));
        r
    }
}

impl Ordered for VerificationCategory {
    open spec fn parts(v: VerificationCategory) -> Seq<PartModel> {
        seq![PartModel::Num(v.rank())]
    }

    fn to_parts(&self) -> (r: Vec<Part>) {
        let r = vec![Part::Num(self.to_rank())];
        assert(r.deep_view() =~= Self::parts(self.deep_view()));
        r
    }
}

impl Ordered for ChangeDeclarationEvidence {
    open spec fn parts(v: ChangeDeclarationEvidenceModel) -> Seq<PartModel> {
        seq![PartModel::Text(v.finding_id)]
    }

    fn to_parts(&self) -> (r: Vec<Part>) {
        let r = vec![Part::Text(self.finding_id.clone())];
        assert(r.deep_view() =~= Self::parts(self.deep_view()));
        r
    }
}

impl Ordered for KotlinChangeObservation {
    open spec fn parts(v: KotlinChangeObservationModel) -> Seq<PartModel> {
        seq![
            PartModel::Num(v.side.rank()),
            PartModel::Num(v.code.rank()),
            PartModel::Text(v.observation_id),
        ]
    }

    fn to_parts(&self) -> (r: Vec<Part>) {
        let r = vec![
            Part::Num(self.side.to_rank()),
            Part::Num(self.code.to_rank()),
            Part::Text(self.observation_id.clone()),
        ];
        assert(r.deep_view() =~= Self::parts(self.deep_view()));
        r
    }
}

/// The parts of a list of texts: the texts, and an end that comes before any text.
pub open spec fn text_parts(texts: Seq<Seq<char>>) -> Seq<PartModel> {
    Seq::new(texts.len(), |i: int| PartModel::Text(texts[i])).push(PartModel::Absent)
}

fn push_texts(parts: &mut Vec<Part>, texts: &Vec<String>)
    ensures
        final(parts).deep_view() == old(parts).deep_view() + text_parts(texts.deep_view()),
{
    let ghost start = parts.deep_view();
    let ghost m = texts.deep_view();
    let ghost all = Seq::new(m.len(), |i: int| PartModel::Text(m[i]));
    let mut i: usize = 0;
    assert(parts.deep_view() =~= start + all.take(0));
    while i < texts.len()
        invariant
            i <= texts.len(),
            m == texts.deep_view(),
            all == Seq::new(m.len(), |i: int| PartModel::Text(m[i])),
            parts.deep_view() == start + all.take(i as int),
        decreases texts.len() - i,
    {
        let ghost before = parts.deep_view();
        assert(m[i as int] == texts@[i as int]@);
        parts.push(Part::Text(texts[i].clone()));
        assert(parts.deep_view() =~= before.push(all[i as int]));
        assert(start + all.take(i + 1) =~= (start + all.take(i as int)).push(all[i as int]));
        i = i + 1;
    }
    let ghost before = parts.deep_view();
    parts.push(Part::Absent);
    assert(all.take(m.len() as int) =~= all);
    assert(parts.deep_view() =~= before.push(PartModel::Absent));
    assert(start + text_parts(m) =~= (start + all).push(PartModel::Absent));
}

impl Ordered for ChangeObligationDetail {
    open spec fn parts(v: ChangeObligationDetailModel) -> Seq<PartModel> {
        match v {
            ChangeObligationDetailModel::Upstream { phase, obligation } => seq![
                PartModel::Num(0),
                PartModel::Num(phase.rank()),
            ] + ImpactObligation::parts(obligation),
            ChangeObligationDetailModel::Comparison {
                phase,
                side,
                code,
                before_finding_ids,
                after_finding_ids,
            } => seq![
                PartModel::Num(1),
                PartModel::Num(phase.rank()),
                PartModel::Num(side.rank()),
                PartModel::Num(code.rank()),
            ] + text_parts(before_finding_ids) + text_parts(after_finding_ids),
        }
    }

    fn to_parts(&self) -> (r: Vec<Part>) {
        match self {
            ChangeObligationDetail::Upstream { phase, obligation } => {
                let mut r = vec![Part::Num(0), Part::Num(phase.to_rank())];
                let ghost head = r.deep_view();
                assert(head =~= seq![PartModel::Num(0), PartModel::Num(phase.rank())]);
                let mut rest = obligation.to_parts();
                let ghost tail = rest.deep_view();
                r.append(&mut rest);
                assert(r.deep_view() =~= head + tail);
                r
            },
            ChangeObligationDetail::Comparison {
                phase,
                side,
                code,
                before_finding_ids,
                after_finding_ids,
            } => {
                let mut r = vec![
                    Part::Num(1),
                    Part::Num(phase.to_rank()),
                    Part::Num(side.to_rank()),
                    Part::Num(code.to_rank()),
                ];
                assert(r.deep_view() =~= seq![
                    PartModel::Num(1),
                    PartModel::Num(phase.rank()),
                    PartModel::Num(side.rank()),
                    PartModel::Num(code.rank()),
                ]);
                push_texts(&mut r, before_finding_ids);
                push_texts(&mut r, after_finding_ids);
                r
            },
        }
    }
}

/// What a change set is asked for: the correspondence of the members, the bytes of
/// the coverage document and the document that they hold, where they hold one, the
/// runtime that validates it, and the budgets.
pub struct ThreadChangeSetRequest {
    pub member_correspondence: Vec<MemberCorrespondence>,
    pub coverage_document: Vec<u8>,
    pub document: Option<KotlinChangeCoverageDocument>,
    pub validator_runtime: ValidatorRuntimeAuthority,
    pub budgets: ChangeSetBudgets,
}

/// The model of a [`ThreadChangeSetRequest`].
pub struct ThreadChangeSetRequestModel {
    pub member_correspondence: Seq<MemberCorrespondenceModel>,
    pub coverage_document: Seq<u8>,
    pub document: Option<KotlinChangeCoverageDocumentModel>,
    pub validator_runtime: ValidatorRuntimeAuthorityModel,
    pub budgets: ChangeSetBudgetsModel,
}

impl DeepView for ThreadChangeSetRequest {
    type V = ThreadChangeSetRequestModel;

    open spec fn deep_view(&self) -> ThreadChangeSetRequestModel {
        ThreadChangeSetRequestModel {
            member_correspondence: self.member_correspondence.deep_view(),
            coverage_document: self.coverage_document@,
            document: self.document.deep_view(),
            validator_runtime: self.validator_runtime.deep_view(),
            budgets: self.budgets.deep_view(),
        }
    }
}

/// One side of a change: a thread, its fact set and an impact, and what the query
/// of the impact found, unless it failed.
pub struct VerifiedChangeSide<'a> {
    pub thread: &'a ThreadAuthority,
    pub fact_set: &'a PreparedCallableFactSet,
    pub impact: &'a PreparedThreadImpact,
    pub trace: Option<&'a CallableQueryTrace>,
}

/// The model of a [`VerifiedChangeSide`].
pub struct VerifiedChangeSideModel {
    pub thread: ThreadAuthorityModel,
    pub fact_set: PreparedCallableFactSetModel,
    pub impact: PreparedThreadImpactModel,
    pub trace: Option<CallableQueryTraceModel>,
}

impl<'a> DeepView for VerifiedChangeSide<'a> {
    type V = VerifiedChangeSideModel;

    open spec fn deep_view(&self) -> VerifiedChangeSideModel {
        VerifiedChangeSideModel {
            thread: self.thread.deep_view(),
            fact_set: self.fact_set.deep_view(),
            impact: self.impact.deep_view(),
            trace: self.trace.deep_view(),
        }
    }
}

/// The frozen budgets.
pub open spec fn frozen_budgets() -> ChangeSetBudgetsModel {
    ChangeSetBudgetsModel {
        max_member_correspondences: MAX_CHANGE_MEMBER_CORRESPONDENCES,
        max_coverage_document_bytes: MAX_CHANGE_COVERAGE_DOCUMENT_BYTES,
        max_coverage_entries: MAX_CHANGE_COVERAGE_ENTRIES,
        max_observations: MAX_CHANGE_OBSERVATIONS,
        max_obligations: MAX_CHANGE_OBLIGATIONS,
        max_result_rows: MAX_CHANGE_RESULT_ROWS,
        max_derived_cas_objects: MAX_CHANGE_DERIVED_CAS_OBJECTS,
        max_retained_closure_bytes: MAX_CHANGE_RETAINED_CLOSURE_BYTES,
        max_stdout_bytes: MAX_CHANGE_STDOUT_BYTES,
    }
}

impl ChangeSetBudgets {
    /// The frozen budgets.
    pub fn frozen() -> (r: ChangeSetBudgets)
        ensures
            r.deep_view() == frozen_budgets(),
    {
        ChangeSetBudgets {
            max_member_correspondences: MAX_CHANGE_MEMBER_CORRESPONDENCES,
            max_coverage_document_bytes: MAX_CHANGE_COVERAGE_DOCUMENT_BYTES,
            max_coverage_entries: MAX_CHANGE_COVERAGE_ENTRIES,
            max_observations: MAX_CHANGE_OBSERVATIONS,
            max_obligations: MAX_CHANGE_OBLIGATIONS,
            max_result_rows: MAX_CHANGE_RESULT_ROWS,
            max_derived_cas_objects: MAX_CHANGE_DERIVED_CAS_OBJECTS,
            max_retained_closure_bytes: MAX_CHANGE_RETAINED_CLOSURE_BYTES,
            max_stdout_bytes: MAX_CHANGE_STDOUT_BYTES,
        }
    }

    /// Accepts the frozen budgets and no others.
    pub fn validate(&self) -> (r: Result<(), ClewError>)
        ensures
            outcome(r) == (if self.deep_view() == frozen_budgets() {
                Ok(())
            } else {
                refused("Kotlin change-set budgets differ from the frozen profile"@)
            }),
    {
        if !self.same_as(&ChangeSetBudgets::frozen()) {
            return Err(invalid("Kotlin change-set budgets differ from the frozen profile"));
        }
        Ok(())
    }
}

impl Default for ChangeSetBudgets {
    fn default() -> (r: ChangeSetBudgets)
        ensures
            r.deep_view() == frozen_budgets(),
    {
        ChangeSetBudgets::frozen()
    }
}

/// The outcome for a number that must not exceed another.
pub open spec fn at_most(actual: nat, maximum: nat, message: Seq<char>) -> Result<(), ErrorModel> {
    if actual > maximum {
        exceeded(message)
    } else {
        Ok(())
    }
}

/// The outcome for a number that must be another.
pub open spec fn exactly(actual: nat, expected: nat, message: Seq<char>) -> Result<(), ErrorModel> {
    if actual != expected {
        exceeded(message)
    } else {
        Ok(())
    }
}

/// Accepts a number that does not exceed another.
pub fn enforce_at_most(actual: usize, maximum: usize, message: &str) -> (r: Result<(), ClewError>)
    ensures
        outcome(r) == at_most(actual as nat, maximum as nat, message@),
{
    if actual > maximum {
        Err(budget(message))
    } else {
        Ok(())
    }
}

/// Accepts a number that is another.
pub fn enforce_exact(actual: usize, expected: usize, message: &str) -> (r: Result<(), ClewError>)
    ensures
        outcome(r) == exactly(actual as nat, expected as nat, message@),
{
    if actual != expected {
        Err(budget(message))
    } else {
        Ok(())
    }
}

/// An ASCII letter or digit.
pub open spec fn is_ascii_word(c: char) -> bool {
    ('a' <= c && c <= 'z') || ('A' <= c && c <= 'Z') || ('0' <= c && c <= '9')
}

/// A character that may stand inside a name.
pub open spec fn is_name_mark(c: char) -> bool {
    c == '-' || c == '_' || c == '.'
}

fn ascii_word(c: char) -> (r: bool)
    ensures
        r == is_ascii_word(c),
{
    ('a' <= c && c <= 'z') || ('A' <= c && c <= 'Z') || ('0' <= c && c <= '9')
}

/// A text that is a name: it starts with an ASCII letter or digit and holds only
/// these, dashes, underscores and dots.
pub open spec fn is_name(s: Seq<char>) -> bool {
    s.len() > 0 && forall|i: int|
        0 <= i < s.len() ==> is_ascii_word(#[trigger] s[i]) || (i > 0 && is_name_mark(s[i]))
}

fn name(s: &str) -> (r: bool)
    ensures
        r == is_name(s@),
{
    let chars = chars_of(s);
    if chars.len() == 0 {
        return false;
    }
    let mut i: usize = 0;
    while i < chars.len()
        invariant
            i <= chars.len(),
            chars@ == s@,
            forall|k: int|
                0 <= k < i ==> is_ascii_word(#[trigger] s@[k]) || (k > 0 && is_name_mark(s@[k])),
        decreases chars.len() - i,
    {
        let c = chars[i];
        if !ascii_word(c) && !(i > 0 && (c == '-' || c == '_' || c == '.')) {
            assert(!is_ascii_word(s@[i as int]));
            return false;
        }
        i = i + 1;
    }
    true
}

/// A text that may name a member.
pub open spec fn is_safe_alias(s: Seq<char>) -> bool {
    is_name(s) && vstd::utf8::encode_utf8(s).len() <= 64 && nfc_of(s) == s
}

/// Whether a text may name a member.
pub fn safe_alias(value: &str) -> (r: bool)
    ensures
        r == is_safe_alias(value@),
{
    name(value) && byte_len(value) <= 64 && is_nfc(value)
}

/// A text that may name tracked work.
pub open spec fn is_safe_tracking_id(s: Seq<char>) -> bool {
    is_name(s) && vstd::utf8::encode_utf8(s).len() <= 128
}

/// Whether a text may name tracked work.
pub fn safe_tracking_id(value: &str) -> (r: bool)
    ensures
        r == is_safe_tracking_id(value@),
{
    name(value) && byte_len(value) <= 128
}

/// The value that an object has under a key, or null.
pub open spec fn field_of(shape: JsonModel, name: Seq<char>) -> JsonModel {
    match shape.get(name) {
        Some(value) => value,
        None => JsonModel::Null,
    }
}

fn field(shape: &Json, name: &str) -> (r: Json)
    ensures
        r.deep_view() == field_of(shape.deep_view(), name@),
{
    match shape.get(name) {
        Some(value) => value.copied(),
        None => Json::Null,
    }
}

fn optional_field(shape: &Json, name: &str) -> (r: Option<Json>)
    ensures
        r.deep_view() == shape.deep_view().get(name@),
{
    match shape.get(name) {
        Some(value) => Some(value.copied()),
        None => None,
    }
}

/// The descriptor of a declaration on the JVM: the one of its shape, or the one in
/// its symbol.
pub open spec fn descriptor_of(d: ChangeDeclarationEvidenceModel) -> JsonModel {
    match d.projected_shape.get("jvmDescriptor"@) {
        Some(value) => value,
        None => match found(d.symbol_identity, "#jvm:"@) {
            Some(i) => JsonModel::Str(d.symbol_identity.skip(i + "#jvm:"@.len())),
            None => JsonModel::Null,
        },
    }
}

fn jvm_descriptor(d: &ChangeDeclarationEvidence) -> (r: Json)
    ensures
        r.deep_view() == descriptor_of(d.deep_view()),
{
    match d.projected_shape.get("jvmDescriptor") {
        Some(value) => value.copied(),
        None => {
            let symbol = chars_of(d.symbol_identity.as_str());
            let mark = chars_of("#jvm:");
            match find(symbol.as_slice(), mark.as_slice()) {
                Some(i) => {
                    proof {
                        crate::text::found_from_in_range(symbol@, mark@, 0);
                    }
                    let end: usize = symbol.len();
                    assert(i + mark@.len() <= end);
                    let rest = vstd::slice::slice_subrange(
                        symbol.as_slice(),
                        i + mark.len(),
                        end,
                    );
                    assert(rest@ =~= symbol@.skip(i + mark@.len()));
                    Json::Str(text_of(rest))
                },
                None => Json::Null,
            }
        },
    }
}

/// A type without the mark that says it may be null.
pub open spec fn type_normalized(value: JsonModel) -> JsonModel {
    match value {
        JsonModel::Str(s) => if s.len() > 0 && s.last() == '?' {
            JsonModel::Str(s.drop_last())
        } else {
            value
        },
        _ => value,
    }
}

fn normalized_type(value: &Json) -> (r: Json)
    ensures
        r.deep_view() == type_normalized(value.deep_view()),
{
    match value {
        Json::Str(s) => {
            let chars = chars_of(s.as_str());
            if chars.len() > 0 && chars[chars.len() - 1] == '?' {
                let rest = vstd::slice::slice_subrange(chars.as_slice(), 0, chars.len() - 1);
                assert(rest@ =~= s@.drop_last());
                Json::Str(text_of(rest))
            } else {
                value.copied()
            }
        },
        _ => value.copied(),
    }
}

fn optional_type(shape: &Json, name: &str) -> (r: Option<Json>)
    ensures
        r.deep_view() == (match shape.deep_view().get(name@) {
            Some(value) => Some(type_normalized(value)),
            None => None,
        }),
{
    match shape.get(name) {
        Some(value) => Some(normalized_type(value)),
        None => None,
    }
}

/// The type that an object has under a key, where it has one.
pub open spec fn type_at(shape: JsonModel, name: Seq<char>) -> Option<JsonModel> {
    match shape.get(name) {
        Some(value) => Some(type_normalized(value)),
        None => None,
    }
}

/// The list that an object has under a key, or an empty one.
pub open spec fn items_at(shape: JsonModel, name: Seq<char>) -> Seq<JsonModel> {
    match shape.array_at(name) {
        Some(items) => items,
        None => Seq::empty(),
    }
}

/// What is compared of a parameter: its index and its type, whether or not it may
/// be null.
pub open spec fn parameter_compared(parameter: JsonModel) -> JsonModel {
    JsonModel::object().with_some("index"@, parameter.get("index"@)).with_some(
        "type"@,
        type_at(parameter, "type"@),
    )
}

/// What is compared of the parameters.
pub open spec fn parameters_compared(shape: JsonModel) -> JsonModel {
    let items = items_at(shape, "parameterTypes"@);
    JsonModel::Arr(Seq::new(items.len(), |i: int| parameter_compared(items[i])))
}

fn parameter_types(shape: &Json) -> (r: Json)
    ensures
        r.deep_view() == parameters_compared(shape.deep_view()),
{
    let mut compared: Vec<Json> = Vec::new();
    let ghost all = items_at(shape.deep_view(), "parameterTypes"@);
    match shape.array_at("parameterTypes") {
        Some(items) => {
            let mut i: usize = 0;
            while i < items.len()
                invariant
                    i <= items.len(),
                    all == items.deep_view(),
                    compared@.len() == i,
                    forall|k: int|
                        0 <= k < i ==> (#[trigger] compared@[k]).deep_view()
                            == parameter_compared(all[k]),
                decreases items.len() - i,
            {
                assert(all[i as int] == items@[i as int].deep_view());
                let parameter = &items[i];
                compared.push(
                    Json::object().with_some("index", optional_field(parameter, "index")).with_some(
                        "type",
                        optional_type(parameter, "type"),
                    ),
                );
                i = i + 1;
            }
        },
        None => {},
    }
    assert(compared.deep_view() =~= Seq::new(all.len(), |i: int| parameter_compared(all[i])));
    list(compared)
}

/// What is compared of the result: the type that is returned or declared, whether
/// or not it may be null.
pub open spec fn result_compared(shape: JsonModel) -> JsonModel {
    JsonModel::object().with_some("returnType"@, type_at(shape, "returnType"@)).with_some(
        "declaredType"@,
        type_at(shape, "declaredType"@),
    )
}

fn return_type(shape: &Json) -> (r: Json)
    ensures
        r.deep_view() == result_compared(shape.deep_view()),
{
    Json::object().with_some("returnType", optional_type(shape, "returnType")).with_some(
        "declaredType",
        optional_type(shape, "declaredType"),
    )
}

/// What is compared of the receiver: its type, whether or not it may be null.
pub open spec fn receiver_compared(shape: JsonModel) -> JsonModel {
    match shape.get("receiverType"@) {
        None => JsonModel::Null,
        Some(receiver) => match receiver.get("type"@) {
            Some(value) => type_normalized(value),
            None => type_normalized(receiver),
        },
    }
}

fn receiver_type(shape: &Json) -> (r: Json)
    ensures
        r.deep_view() == receiver_compared(shape.deep_view()),
{
    match shape.get("receiverType") {
        None => Json::Null,
        Some(receiver) => match receiver.get("type") {
            Some(value) => normalized_type(value),
            None => normalized_type(receiver),
        },
    }
}

/// What is compared of what may be null: the result, the parameters and the
/// receiver.
pub open spec fn nullability_compared(shape: JsonModel) -> JsonModel {
    JsonModel::object().with_some("returnNullable"@, shape.get("returnNullable"@)).with_some(
        "declaredNullable"@,
        shape.get("declaredNullable"@),
    ).with_some(
        "parameterNullability"@,
        match shape.array_at("parameterTypes"@) {
            Some(items) => Some(
                JsonModel::Arr(Seq::new(items.len(), |i: int| field_of(items[i], "nullable"@))),
            ),
            None => None,
        },
    ).with_some(
        "receiverNullable"@,
        match shape.get("receiverType"@) {
            Some(receiver) => Some(field_of(receiver, "nullable"@)),
            None => None,
        },
    )
}

fn fields_of(items: &Vec<Json>, name: &str) -> (r: Json)
    ensures
        r.deep_view() == JsonModel::Arr(
            Seq::new(items@.len(), |i: int| field_of(items.deep_view()[i], name@)),
        ),
{
    let ghost all = items.deep_view();
    let mut fields: Vec<Json> = Vec::new();
    let mut i: usize = 0;
    while i < items.len()
        invariant
            i <= items.len(),
            all == items.deep_view(),
            fields@.len() == i,
            forall|k: int|
                0 <= k < i ==> (#[trigger] fields@[k]).deep_view() == field_of(all[k], name@),
        decreases items.len() - i,
    {
        assert(all[i as int] == items@[i as int].deep_view());
        fields.push(field(&items[i], name));
        i = i + 1;
    }
    assert(fields.deep_view() =~= Seq::new(
        items@.len(),
        |i: int| field_of(items.deep_view()[i], name@),
    ));
    list(fields)
}

fn nullability(shape: &Json) -> (r: Json)
    ensures
        r.deep_view() == nullability_compared(shape.deep_view()),
{
    let parameters = match shape.array_at("parameterTypes") {
        Some(items) => {
            let fields = fields_of(items, "nullable");
            assert(fields.deep_view()->Arr_0 =~= Seq::new(
                items.deep_view().len(),
                |i: int| field_of(items.deep_view()[i], "nullable"@),
            ));
            Some(fields)
        },
        None => None,
    };
    let receiver = match shape.get("receiverType") {
        Some(receiver) => Some(field(receiver, "nullable")),
        None => None,
    };
    Json::object().with_some("returnNullable", optional_field(shape, "returnNullable")).with_some(
        "declaredNullable",
        optional_field(shape, "declaredNullable"),
    ).with_some("parameterNullability", parameters).with_some("receiverNullable", receiver)
}

/// What is compared of a type parameter: its index and its bounds.
pub open spec fn bound_compared(parameter: JsonModel) -> JsonModel {
    JsonModel::object().with_some("index"@, parameter.get("index"@)).with_some(
        "bounds"@,
        parameter.get("bounds"@),
    )
}

/// What is compared of the type parameters.
pub open spec fn bounds_compared(shape: JsonModel) -> JsonModel {
    let items = items_at(shape, "typeParameters"@);
    JsonModel::Arr(Seq::new(items.len(), |i: int| bound_compared(items[i])))
}

fn type_parameter_bounds(shape: &Json) -> (r: Json)
    ensures
        r.deep_view() == bounds_compared(shape.deep_view()),
{
    let mut compared: Vec<Json> = Vec::new();
    let ghost all = items_at(shape.deep_view(), "typeParameters"@);
    match shape.array_at("typeParameters") {
        Some(items) => {
            let mut i: usize = 0;
            while i < items.len()
                invariant
                    i <= items.len(),
                    all == items.deep_view(),
                    compared@.len() == i,
                    forall|k: int|
                        0 <= k < i ==> (#[trigger] compared@[k]).deep_view() == bound_compared(
                            all[k],
                        ),
                decreases items.len() - i,
            {
                assert(all[i as int] == items@[i as int].deep_view());
                let parameter = &items[i];
                compared.push(
                    Json::object().with_some("index", optional_field(parameter, "index")).with_some(
                        "bounds",
                        optional_field(parameter, "bounds"),
                    ),
                );
                i = i + 1;
            }
        },
        None => {},
    }
    assert(compared.deep_view() =~= Seq::new(all.len(), |i: int| bound_compared(all[i])));
    list(compared)
}

/// What is compared of the visibility.
pub open spec fn visibility_compared(shape: JsonModel) -> JsonModel {
    JsonModel::object().with_some("visibility"@, shape.get("visibility"@)).with_some(
        "effectiveVisibility"@,
        shape.get("effectiveVisibility"@),
    ).with_some("exportBoundary"@, shape.get("exportBoundary"@))
}

fn visibility(shape: &Json) -> (r: Json)
    ensures
        r.deep_view() == visibility_compared(shape.deep_view()),
{
    Json::object().with_some("visibility", optional_field(shape, "visibility")).with_some(
        "effectiveVisibility",
        optional_field(shape, "effectiveVisibility"),
    ).with_some("exportBoundary", optional_field(shape, "exportBoundary"))
}

/// Whether a part of a shape is compared on its own.
pub open spec fn is_known_part(key: Seq<char>) -> bool {
    key == "symbolIdentity"@ || key == "jvmDescriptor"@ || key == "parameterTypes"@ || key
        == "returnType"@ || key == "returnNullable"@ || key == "declaredType"@ || key
        == "declaredNullable"@ || key == "receiverType"@ || key == "typeParameters"@ || key
        == "visibility"@ || key == "effectiveVisibility"@ || key == "exportBoundary"@ || key
        == "modality"@ || key == "isOverride"@
}

fn known_part(key: &str) -> (r: bool)
    ensures
        r == is_known_part(key@),
{
    same_text(key, "symbolIdentity") || same_text(key, "jvmDescriptor") || same_text(
        key,
        "parameterTypes",
    ) || same_text(key, "returnType") || same_text(key, "returnNullable") || same_text(
        key,
        "declaredType",
    ) || same_text(key, "declaredNullable") || same_text(key, "receiverType") || same_text(
        key,
        "typeParameters",
    ) || same_text(key, "visibility") || same_text(key, "effectiveVisibility") || same_text(
        key,
        "exportBoundary",
    ) || same_text(key, "modality") || same_text(key, "isOverride")
}

/// The first `n` members of a shape, without the parts that are compared on their
/// own.
pub open spec fn remaining_parts(members: Members, n: nat) -> JsonModel
    decreases n,
{
    if n == 0 || n > members.len() {
        JsonModel::object()
    } else if is_known_part(members[n - 1].0) {
        remaining_parts(members, (n - 1) as nat)
    } else {
        remaining_parts(members, (n - 1) as nat).with(members[n - 1].0, members[n - 1].1)
    }
}

/// An optional text as a value.
pub open spec fn text_or_null(s: Option<Seq<char>>) -> JsonModel {
    match s {
        Some(s) => JsonModel::Str(s),
        None => JsonModel::Null,
    }
}

fn write_text_or_null(s: &Option<String>) -> (r: Json)
    ensures
        r.deep_view() == text_or_null(s.deep_view()),
{
    match s {
        Some(s) => Json::Str(s.clone()),
        None => Json::Null,
    }
}

/// What is left of a declaration when the parts that are compared on their own are
/// taken away.
pub open spec fn residue_of(d: ChangeDeclarationEvidenceModel) -> JsonModel {
    let rest = match d.projected_shape {
        JsonModel::Obj(members) => remaining_parts(members, members.len()),
        _ => JsonModel::object(),
    };
    rest.with("declarationKind"@, <DeclarationKind as Record>::json(d.declaration_kind)).with(
        "compilerCallableId"@,
        text_or_null(d.compiler_callable_id),
    ).with("compilerClassId"@, text_or_null(d.compiler_class_id))
}

fn collect_remaining(shape: &Json) -> (r: Json)
    ensures
        r.deep_view() == (match shape.deep_view() {
            JsonModel::Obj(members) => remaining_parts(members, members.len()),
            _ => JsonModel::object(),
        }),
{
    let mut rest = Json::object();
    match shape {
        Json::Obj(members) => {
            let ghost m = crate::json::member_models(members@);
            proof {
                crate::json::model_of_object(*members);
            }
            let mut i: usize = 0;
            while i < members.len()
                invariant
                    i <= members.len(),
                    m == crate::json::member_models(members@),
                    rest.deep_view() == remaining_parts(m, i as nat),
                decreases members.len() - i,
            {
                assert(m[i as int] == (
                    members@[i as int].0@,
                    members@[i as int].1.deep_view(),
                ));
                if !known_part(members[i].0.as_str()) {
                    rest = rest.with(members[i].0.as_str(), members[i].1.copied());
                }
                i = i + 1;
            }
        },
        _ => {},
    }
    rest
}

fn residual_shape(d: &ChangeDeclarationEvidence) -> (r: Json)
    ensures
        r.deep_view() == residue_of(d.deep_view()),
{
    collect_remaining(&d.projected_shape).with(
        "declarationKind",
        d.declaration_kind.to_json(),
    ).with("compilerCallableId", write_text_or_null(&d.compiler_callable_id)).with(
        "compilerClassId",
        write_text_or_null(&d.compiler_class_id),
    )
}

/// What the identity of an observation is taken of.
pub open spec fn observation_material(
    code: KotlinChangeCode,
    side: ImpactSide,
    before: Seq<ChangeDeclarationEvidenceModel>,
    after: Seq<ChangeDeclarationEvidenceModel>,
) -> JsonModel {
    JsonModel::object().with(
        "schema"@,
        JsonModel::Str("codeclew-kotlin-change-observation/1.0"@),
    ).with("code"@, <KotlinChangeCode as Record>::json(code)).with(
        "side"@,
        <ImpactSide as Record>::json(side),
    ).with("before"@, <Vec<ChangeDeclarationEvidence> as Record>::json(before)).with(
        "after"@,
        <Vec<ChangeDeclarationEvidence> as Record>::json(after),
    )
}

/// An observation. The declarations stand in the order of their findings.
#[verifier::opaque]
pub open spec fn observed(
    code: KotlinChangeCode,
    side: ImpactSide,
    before: Seq<ChangeDeclarationEvidenceModel>,
    after: Seq<ChangeDeclarationEvidenceModel>,
) -> KotlinChangeObservationModel {
    let before = order::sorted::<ChangeDeclarationEvidence>(before);
    let after = order::sorted::<ChangeDeclarationEvidence>(after);
    KotlinChangeObservationModel {
        observation_id: json_digest(observation_material(code, side, before, after)),
        code,
        side,
        before,
        after,
    }
}

fn observation(
    code: KotlinChangeCode,
    side: ImpactSide,
    before: &Vec<ChangeDeclarationEvidence>,
    after: &Vec<ChangeDeclarationEvidence>,
) -> (r: KotlinChangeObservation)
    ensures
        r.deep_view() == observed(code, side, before.deep_view(), after.deep_view()),
{
    proof {
        reveal(observed);
    }
    let before = order::sort(before);
    let after = order::sort(after);
    let material = Json::object().with(
        "schema",
        Json::Str("codeclew-kotlin-change-observation/1.0".to_owned()),
    ).with("code", code.to_json()).with("side", side.to_json()).with(
        "before",
        before.to_json(),
    ).with("after", after.to_json());
    KotlinChangeObservation { observation_id: hash(&material), code, side, before, after }
}

/// What a comparison has found so far: what was observed, and what is left to be
/// done.
pub struct Compared {
    pub observations: Seq<KotlinChangeObservationModel>,
    pub obligations: Seq<ChangeObligationDetailModel>,
}

/// What a comparison has found so far.
pub open spec fn so_far(
    observations: Seq<KotlinChangeObservationModel>,
    obligations: Seq<ChangeObligationDetailModel>,
) -> Compared {
    Compared { observations, obligations }
}

/// What is left to be done about a comparison.
pub open spec fn left_open(
    side: ImpactSide,
    code: ComparisonObligationCode,
    before_finding_ids: Seq<Seq<char>>,
    after_finding_ids: Seq<Seq<char>>,
) -> ChangeObligationDetailModel {
    ChangeObligationDetailModel::Comparison {
        phase: ChangeObligationPhase::Comparison,
        side,
        code,
        before_finding_ids,
        after_finding_ids,
    }
}

fn push_obligation(
    obligations: &mut Vec<ChangeObligationDetail>,
    side: ImpactSide,
    code: ComparisonObligationCode,
    before_finding_ids: Vec<String>,
    after_finding_ids: Vec<String>,
)
    ensures
        final(obligations).deep_view() == old(obligations).deep_view().push(
            left_open(side, code, before_finding_ids.deep_view(), after_finding_ids.deep_view()),
        ),
{
    let ghost before = obligations.deep_view();
    let detail = ChangeObligationDetail::Comparison {
        phase: ChangeObligationPhase::Comparison,
        side,
        code,
        before_finding_ids,
        after_finding_ids,
    };
    let ghost added = detail.deep_view();
    obligations.push(detail);
    assert(obligations.deep_view() =~= before.push(added));
}

fn push_observation(
    observations: &mut Vec<KotlinChangeObservation>,
    code: KotlinChangeCode,
    side: ImpactSide,
    before: &Vec<ChangeDeclarationEvidence>,
    after: &Vec<ChangeDeclarationEvidence>,
)
    ensures
        final(observations).deep_view() == old(observations).deep_view().push(
            observed(code, side, before.deep_view(), after.deep_view()),
        ),
{
    let ghost start = observations.deep_view();
    let made = observation(code, side, before, after);
    let ghost added = made.deep_view();
    observations.push(made);
    assert(observations.deep_view() =~= start.push(added));
}

/// What is observed where a part of two declarations differs.
pub open spec fn part_compared(
    observations: Seq<KotlinChangeObservationModel>,
    code: KotlinChangeCode,
    side: ImpactSide,
    before: ChangeDeclarationEvidenceModel,
    after: ChangeDeclarationEvidenceModel,
    before_part: JsonModel,
    after_part: JsonModel,
) -> Seq<KotlinChangeObservationModel> {
    added_if(
        observations,
        before_part != after_part,
        observed(code, side, seq![before], seq![after]),
    )
}

fn compare_part(
    observations: &mut Vec<KotlinChangeObservation>,
    code: KotlinChangeCode,
    side: ImpactSide,
    before: &Vec<ChangeDeclarationEvidence>,
    after: &Vec<ChangeDeclarationEvidence>,
    before_part: Json,
    after_part: Json,
)
    requires
        before@.len() == 1,
        after@.len() == 1,
    ensures
        final(observations).deep_view() == part_compared(
            old(observations).deep_view(),
            code,
            side,
            before.deep_view()[0],
            after.deep_view()[0],
            before_part.deep_view(),
            after_part.deep_view(),
        ),
{
    if !before_part.same_as(&after_part) {
        assert(before.deep_view() =~= seq![before.deep_view()[0]]);
        assert(after.deep_view() =~= seq![after.deep_view()[0]]);
        push_observation(observations, code, side, before, after);
    }
}

/// The changes of the parts of a declaration that are compared on their own.
#[verifier::opaque]
pub open spec fn parts_compared(
    observations: Seq<KotlinChangeObservationModel>,
    side: ImpactSide,
    b: ChangeDeclarationEvidenceModel,
    a: ChangeDeclarationEvidenceModel,
) -> Seq<KotlinChangeObservationModel> {
    let x = b.projected_shape;
    let y = a.projected_shape;
    let s1 = part_compared(
        observations,
        KotlinChangeCode::KcdJvmDescriptorChanged,
        side,
        b,
        a,
        descriptor_of(b),
        descriptor_of(a),
    );
    let s2 = part_compared(
        s1,
        KotlinChangeCode::KcdParameterTypesChanged,
        side,
        b,
        a,
        parameters_compared(x),
        parameters_compared(y),
    );
    let s3 = part_compared(
        s2,
        KotlinChangeCode::KcdReturnTypeChanged,
        side,
        b,
        a,
        result_compared(x),
        result_compared(y),
    );
    let s4 = part_compared(
        s3,
        KotlinChangeCode::KcdReceiverTypeChanged,
        side,
        b,
        a,
        receiver_compared(x),
        receiver_compared(y),
    );
    let s5 = part_compared(
        s4,
        KotlinChangeCode::KcdNullabilityChanged,
        side,
        b,
        a,
        nullability_compared(x),
        nullability_compared(y),
    );
    let s6 = part_compared(
        s5,
        KotlinChangeCode::KcdTypeParameterBoundsChanged,
        side,
        b,
        a,
        bounds_compared(x),
        bounds_compared(y),
    );
    let s7 = part_compared(
        s6,
        KotlinChangeCode::KcdVisibilityChanged,
        side,
        b,
        a,
        visibility_compared(x),
        visibility_compared(y),
    );
    let s8 = part_compared(
        s7,
        KotlinChangeCode::KcdModalityChanged,
        side,
        b,
        a,
        field_of(x, "modality"@),
        field_of(y, "modality"@),
    );
    part_compared(
        s8,
        KotlinChangeCode::KcdOverrideStatusChanged,
        side,
        b,
        a,
        field_of(x, "isOverride"@),
        field_of(y, "isOverride"@),
    )
}

/// What comparing two declarations finds. What differs beyond the parts that are
/// compared on their own is not supported, and is left to be verified.
#[verifier::opaque]
pub open spec fn pair_compared(
    c: Compared,
    side: ImpactSide,
    before: ChangeDeclarationEvidenceModel,
    after: ChangeDeclarationEvidenceModel,
) -> Compared {
    let observations = parts_compared(c.observations, side, before, after);
    let differs = residue_of(before) != residue_of(after);
    Compared {
        observations: added_if(
            observations,
            differs,
            observed(
                KotlinChangeCode::KcdUnsupportedComparison,
                side,
                seq![before],
                seq![after],
            ),
        ),
        obligations: added_if(
            c.obligations,
            differs,
            left_open(
                side,
                ComparisonObligationCode::VerifyUnsupportedComparison,
                seq![before.finding_id],
                seq![after.finding_id],
            ),
        ),
    }
}

fn compare_parts(
    side: ImpactSide,
    b: &ChangeDeclarationEvidence,
    a: &ChangeDeclarationEvidence,
    observations: &mut Vec<KotlinChangeObservation>,
)
    ensures
        final(observations).deep_view() == parts_compared(
            old(observations).deep_view(),
            side,
            b.deep_view(),
            a.deep_view(),
        ),
{
    proof {
        reveal(parts_compared);
    }
    let before = vec![b.copied()];
    let after = vec![a.copied()];
    assert(before.deep_view()[0] == before@[0].deep_view());
    assert(after.deep_view()[0] == after@[0].deep_view());
    let x = &b.projected_shape;
    let y = &a.projected_shape;
    compare_part(
        observations,
        KotlinChangeCode::KcdJvmDescriptorChanged,
        side,
        &before,
        &after,
        jvm_descriptor(b),
        jvm_descriptor(a),
    );
    compare_part(
        observations,
        KotlinChangeCode::KcdParameterTypesChanged,
        side,
        &before,
        &after,
        parameter_types(x),
        parameter_types(y),
    );
    compare_part(
        observations,
        KotlinChangeCode::KcdReturnTypeChanged,
        side,
        &before,
        &after,
        return_type(x),
        return_type(y),
    );
    compare_part(
        observations,
        KotlinChangeCode::KcdReceiverTypeChanged,
        side,
        &before,
        &after,
        receiver_type(x),
        receiver_type(y),
    );
    compare_part(
        observations,
        KotlinChangeCode::KcdNullabilityChanged,
        side,
        &before,
        &after,
        nullability(x),
        nullability(y),
    );
    compare_part(
        observations,
        KotlinChangeCode::KcdTypeParameterBoundsChanged,
        side,
        &before,
        &after,
        type_parameter_bounds(x),
        type_parameter_bounds(y),
    );
    compare_part(
        observations,
        KotlinChangeCode::KcdVisibilityChanged,
        side,
        &before,
        &after,
        visibility(x),
        visibility(y),
    );
    compare_part(
        observations,
        KotlinChangeCode::KcdModalityChanged,
        side,
        &before,
        &after,
        field(x, "modality"),
        field(y, "modality"),
    );
    compare_part(
        observations,
        KotlinChangeCode::KcdOverrideStatusChanged,
        side,
        &before,
        &after,
        field(x, "isOverride"),
        field(y, "isOverride"),
    );
}

fn one_id(d: &ChangeDeclarationEvidence) -> (r: Vec<String>)
    ensures
        r.deep_view() == seq![d.deep_view().finding_id],
{
    let r = vec![d.finding_id.clone()];
    assert(r.deep_view() =~= seq![d.deep_view().finding_id]);
    r
}

fn one_declaration(d: &ChangeDeclarationEvidence) -> (r: Vec<ChangeDeclarationEvidence>)
    ensures
        r.deep_view() == seq![d.deep_view()],
{
    let r = vec![d.copied()];
    assert(r.deep_view() =~= seq![d.deep_view()]);
    r
}

/// Compares two declarations.
pub fn compare_declaration_pair(
    side: ImpactSide,
    before: &ChangeDeclarationEvidence,
    after: &ChangeDeclarationEvidence,
    observations: &mut Vec<KotlinChangeObservation>,
    obligations: &mut Vec<ChangeObligationDetail>,
)
    ensures
        so_far(final(observations).deep_view(), final(obligations).deep_view()) == pair_compared(
            so_far(old(observations).deep_view(), old(obligations).deep_view()),
            side,
            before.deep_view(),
            after.deep_view(),
        ),
{
    proof {
        reveal(pair_compared);
    }
    compare_parts(side, before, after, observations);
    if !residual_shape(before).same_as(&residual_shape(after)) {
        push_observation(
            observations,
            KotlinChangeCode::KcdUnsupportedComparison,
            side,
            &one_declaration(before),
            &one_declaration(after),
        );
        push_obligation(
            obligations,
            side,
            ComparisonObligationCode::VerifyUnsupportedComparison,
            one_id(before),
            one_id(after),
        );
    }
}

/// The declarations of one side that are compared: those that are exact, those that
/// are not, what cannot be compared, and whether one that is not there is known to
/// be absent.
pub struct LaneDeclarations {
    pub exact: Vec<ChangeDeclarationEvidence>,
    pub unsupported_declarations: Vec<ChangeDeclarationEvidence>,
    pub unsupported_finding_ids: Vec<String>,
    pub absence_complete: bool,
}

/// The model of [`LaneDeclarations`].
pub struct LaneDeclarationsModel {
    pub exact: Seq<ChangeDeclarationEvidenceModel>,
    pub unsupported_declarations: Seq<ChangeDeclarationEvidenceModel>,
    pub unsupported_finding_ids: Seq<Seq<char>>,
    pub absence_complete: bool,
}

impl DeepView for LaneDeclarations {
    type V = LaneDeclarationsModel;

    open spec fn deep_view(&self) -> LaneDeclarationsModel {
        LaneDeclarationsModel {
            exact: self.exact.deep_view(),
            unsupported_declarations: self.unsupported_declarations.deep_view(),
            unsupported_finding_ids: self.unsupported_finding_ids.deep_view(),
            absence_complete: self.absence_complete,
        }
    }
}

/// The declarations of a lane by their symbols, each symbol once.
pub open spec fn by_symbol(declarations: Seq<ChangeDeclarationEvidenceModel>) -> Result<
    Seq<ChangeDeclarationEvidenceModel>,
    ErrorModel,
> {
    if repeats::<ChangeDeclarationEvidence>(declarations) {
        corrupted("impact repeats a declaration symbol within one comparison lane"@)
    } else {
        Ok(first_table::<ChangeDeclarationEvidence>(declarations))
    }
}

fn unique_by_symbol(declarations: &Vec<ChangeDeclarationEvidence>) -> (r: Result<
    Vec<ChangeDeclarationEvidence>,
    ClewError,
>)
    ensures
        outcome(r) == by_symbol(declarations.deep_view()),
{
    let ghost m = declarations.deep_view();
    let mut table: Vec<ChangeDeclarationEvidence> = Vec::new();
    let mut i: usize = 0;
    proof {
        assert(table.deep_view() =~= first_table::<ChangeDeclarationEvidence>(m.take(0)));
    }
    while i < declarations.len()
        invariant
            i <= declarations.len(),
            m == declarations.deep_view(),
            table.deep_view() == first_table::<ChangeDeclarationEvidence>(m.take(i as int)),
            is_table::<ChangeDeclarationEvidence>(table.deep_view()),
            forall|a: int, b: int|
                0 <= a < b < i ==> (#[trigger] m[a]).symbol_identity != (
                #[trigger] m[b]).symbol_identity,
        decreases declarations.len() - i,
    {
        let ghost before = table.deep_view();
        proof {
            assert(m.take(i + 1).drop_last() =~= m.take(i as int));
            assert(m.take(i + 1).last() == declarations@[i as int].deep_view());
            first_table_keys(m.take(i as int), m[i as int].symbol_identity);
        }
        if !enter_new(&mut table, declarations[i].copied()) {
            proof {
                let k = choose|k: int|
                    0 <= k < m.take(i as int).len() && ChangeDeclarationEvidence::key(
                        #[trigger] m.take(i as int)[k],
                    ) == m[i as int].symbol_identity;
                assert(ChangeDeclarationEvidence::key(m[k]) == ChangeDeclarationEvidence::key(
                    m[i as int],
                ));
            }
            return Err(
                corrupt("impact repeats a declaration symbol within one comparison lane"),
            );
        }
        proof {
            assert forall|a: int, b: int| 0 <= a < b < i + 1 implies (
            #[trigger] m[a]).symbol_identity != (#[trigger] m[b]).symbol_identity by {
                if b == i && m[a].symbol_identity == m[b].symbol_identity {
                    assert(ChangeDeclarationEvidence::key(m.take(i as int)[a])
                        == m[i as int].symbol_identity);
                }
            }
        }
        i = i + 1;
    }
    proof {
        assert(m.take(m.len() as int) =~= m);
        if repeats::<ChangeDeclarationEvidence>(m) {
            let (a, b) = choose|a: int, b: int|
                0 <= a < b < m.len() && ChangeDeclarationEvidence::key(#[trigger] m[a])
                    == ChangeDeclarationEvidence::key(#[trigger] m[b]);
            assert(m[a].symbol_identity == m[b].symbol_identity);
        }
    }
    Ok(table)
}

proof fn first_table_keys(s: Seq<ChangeDeclarationEvidenceModel>, key: Seq<char>)
    ensures
        has_key::<ChangeDeclarationEvidence>(first_table::<ChangeDeclarationEvidence>(s), key)
            == has_key::<ChangeDeclarationEvidence>(s, key),
    decreases s.len(),
{
    if s.len() > 0 {
        let before = first_table::<ChangeDeclarationEvidence>(s.drop_last());
        let after = first_table::<ChangeDeclarationEvidence>(s);
        first_table_keys(s.drop_last(), key);
        crate::table::first_table_is_table::<ChangeDeclarationEvidence>(s.drop_last());
        crate::table::entered_keeps_table::<ChangeDeclarationEvidence>(before, s.last());
        if has_key::<ChangeDeclarationEvidence>(after, key) {
            let k = choose|k: int|
                0 <= k < after.len() && ChangeDeclarationEvidence::key(#[trigger] after[k]) == key;
            if after[k] == s.last() {
                assert(ChangeDeclarationEvidence::key(s[s.len() - 1]) == key);
            } else {
                assert(before.contains(after[k]));
                let q = choose|q: int| 0 <= q < before.len() && before[q] == after[k];
                assert(ChangeDeclarationEvidence::key(before[q]) == key);
                let p = choose|p: int|
                    0 <= p < s.drop_last().len() && ChangeDeclarationEvidence::key(
                        #[trigger] s.drop_last()[p],
                    ) == key;
                assert(ChangeDeclarationEvidence::key(s[p]) == key);
            }
        }
        if has_key::<ChangeDeclarationEvidence>(s, key) {
            let p = choose|p: int|
                0 <= p < s.len() && ChangeDeclarationEvidence::key(#[trigger] s[p]) == key;
            if p < s.len() - 1 {
                assert(ChangeDeclarationEvidence::key(s.drop_last()[p]) == key);
                let q = choose|q: int|
                    0 <= q < before.len() && ChangeDeclarationEvidence::key(#[trigger] before[q])
                        == key;
                assert(before.contains(before[q]));
                assert(after.contains(before[q]));
                let k = choose|k: int| 0 <= k < after.len() && after[k] == before[q];
                assert(ChangeDeclarationEvidence::key(after[k]) == key);
            }
        }
    }
}

/// What comparing the declarations with the same symbols finds, from one on.
pub open spec fn matches_compared(
    c: Compared,
    side: ImpactSide,
    before: Seq<ChangeDeclarationEvidenceModel>,
    after: Seq<ChangeDeclarationEvidenceModel>,
    i: int,
) -> Compared
    decreases before.len() - i,
{
    if i < 0 || i >= before.len() {
        c
    } else {
        match record_at::<ChangeDeclarationEvidence>(after, before[i].symbol_identity) {
            Some(other) => matches_compared(
                pair_compared(c, side, before[i], other),
                side,
                before,
                after,
                i + 1,
            ),
            None => matches_compared(c, side, before, after, i + 1),
        }
    }
}

fn compare_matches(
    side: ImpactSide,
    before: &Vec<ChangeDeclarationEvidence>,
    after: &Vec<ChangeDeclarationEvidence>,
    observations: &mut Vec<KotlinChangeObservation>,
    obligations: &mut Vec<ChangeObligationDetail>,
)
    ensures
        so_far(final(observations).deep_view(), final(obligations).deep_view()) == matches_compared(
            so_far(old(observations).deep_view(), old(obligations).deep_view()),
            side,
            before.deep_view(),
            after.deep_view(),
            0,
        ),
{
    let ghost b = before.deep_view();
    let ghost a = after.deep_view();
    let ghost start = so_far(observations.deep_view(), obligations.deep_view());
    let mut i: usize = 0;
    while i < before.len()
        invariant
            i <= before.len(),
            b == before.deep_view(),
            a == after.deep_view(),
            matches_compared(start, side, b, a, 0) == matches_compared(
                so_far(observations.deep_view(), obligations.deep_view()),
                side,
                b,
                a,
                i as int,
            ),
        decreases before.len() - i,
    {
        assert(b[i as int] == before@[i as int].deep_view());
        if let Some(other) = find_record(after, before[i].symbol_identity.as_str()) {
            compare_declaration_pair(side, &before[i], other, observations, obligations);
        }
        i = i + 1;
    }
}

/// The declarations that have no match among others.
pub open spec fn unmatched(
    declarations: Seq<ChangeDeclarationEvidenceModel>,
    others: Seq<ChangeDeclarationEvidenceModel>,
) -> Seq<ChangeDeclarationEvidenceModel> {
    declarations.filter(
        |d: ChangeDeclarationEvidenceModel|
            !has_key::<ChangeDeclarationEvidence>(others, d.symbol_identity),
    )
}

fn take_unmatched(
    declarations: &Vec<ChangeDeclarationEvidence>,
    others: &Vec<ChangeDeclarationEvidence>,
) -> (r: Vec<ChangeDeclarationEvidence>)
    ensures
        r.deep_view() == unmatched(declarations.deep_view(), others.deep_view()),
{
    let ghost m = declarations.deep_view();
    let ghost o = others.deep_view();
    let ghost wanted = |d: ChangeDeclarationEvidenceModel|
        !has_key::<ChangeDeclarationEvidence>(o, d.symbol_identity);
    let mut left: Vec<ChangeDeclarationEvidence> = Vec::new();
    let mut i: usize = 0;
    proof {
        reveal(Seq::filter);
        assert(left.deep_view() =~= m.take(0).filter(wanted));
    }
    while i < declarations.len()
        invariant
            i <= declarations.len(),
            m == declarations.deep_view(),
            o == others.deep_view(),
            wanted == (|d: ChangeDeclarationEvidenceModel|
                !has_key::<ChangeDeclarationEvidence>(o, d.symbol_identity)),
            left.deep_view() == m.take(i as int).filter(wanted),
        decreases declarations.len() - i,
    {
        let ghost before = left.deep_view();
        proof {
            reveal(Seq::filter);
            assert(m[i as int] == declarations@[i as int].deep_view());
            assert(m.take(i + 1).drop_last() =~= m.take(i as int));
        }
        if !contains_key(others, declarations[i].symbol_identity.as_str()) {
            left.push(declarations[i].copied());
            assert(left.deep_view() =~= before.push(m[i as int]));
        }
        i = i + 1;
    }
    assert(m.take(m.len() as int) =~= m);
    left
}

/// The findings of some declarations.
pub open spec fn finding_ids(declarations: Seq<ChangeDeclarationEvidenceModel>) -> Seq<Seq<char>> {
    Seq::new(declarations.len(), |i: int| declarations[i].finding_id)
}

fn collect_finding_ids(declarations: &Vec<ChangeDeclarationEvidence>) -> (r: Vec<String>)
    ensures
        r.deep_view() == finding_ids(declarations.deep_view()),
{
    let ghost m = declarations.deep_view();
    let mut ids: Vec<String> = Vec::new();
    let mut i: usize = 0;
    while i < declarations.len()
        invariant
            i <= declarations.len(),
            m == declarations.deep_view(),
            ids@.len() == i,
            forall|k: int| 0 <= k < i ==> (#[trigger] ids@[k])@ == m[k].finding_id,
        decreases declarations.len() - i,
    {
        assert(m[i as int] == declarations@[i as int].deep_view());
        ids.push(declarations[i].finding_id.clone());
        i = i + 1;
    }
    assert(ids.deep_view() =~= finding_ids(m));
    ids
}

/// What is found where a comparison is observed and left open.
pub open spec fn opened(
    c: Compared,
    side: ImpactSide,
    code: KotlinChangeCode,
    left: ComparisonObligationCode,
    before: Seq<ChangeDeclarationEvidenceModel>,
    after: Seq<ChangeDeclarationEvidenceModel>,
) -> Compared {
    Compared {
        observations: c.observations.push(observed(code, side, before, after)),
        obligations: c.obligations.push(
            left_open(side, left, finding_ids(before), finding_ids(after)),
        ),
    }
}

/// Whether two declarations without a match are compared all the same: there is no
/// other, and the compiler calls them the same.
pub open spec fn are_paired(
    had_matched: bool,
    before: Seq<ChangeDeclarationEvidenceModel>,
    after: Seq<ChangeDeclarationEvidenceModel>,
) -> bool {
    before.len() == 1 && after.len() == 1 && !had_matched && before[0].compiler_callable_id is Some
        && before[0].compiler_callable_id == after[0].compiler_callable_id
}

/// What comparing the declarations without a match finds. An addition or a removal
/// is claimed only where absence is known on both sides, and of the whole family
/// only where nothing of it matched.
pub open spec fn rest_compared(
    c: Compared,
    side: ImpactSide,
    had_matched: bool,
    absence_complete: bool,
    before: Seq<ChangeDeclarationEvidenceModel>,
    after: Seq<ChangeDeclarationEvidenceModel>,
) -> Compared {
    if are_paired(had_matched, before, after) {
        pair_compared(c, side, before[0], after[0])
    } else if before.len() == 0 && after.len() == 0 {
        c
    } else if !absence_complete {
        opened(
            c,
            side,
            KotlinChangeCode::KcdUnsupportedComparison,
            ComparisonObligationCode::VerifyUnsupportedComparison,
            before,
            after,
        )
    } else if before.len() == 0 || after.len() == 0 {
        Compared {
            observations: c.observations.push(
                observed(
                    if had_matched {
                        KotlinChangeCode::KcdOverloadSetChanged
                    } else if before.len() == 0 {
                        KotlinChangeCode::KcdCallableAdded
                    } else {
                        KotlinChangeCode::KcdCallableRemoved
                    },
                    side,
                    before,
                    after,
                ),
            ),
            obligations: c.obligations,
        }
    } else {
        opened(
            c,
            side,
            KotlinChangeCode::KcdOverloadSetChanged,
            ComparisonObligationCode::DisambiguateOverloadSet,
            before,
            after,
        )
    }
}

/// What comparing the exact declarations of two lanes finds.
pub open spec fn lanes_compared(
    c: Compared,
    side: ImpactSide,
    before: LaneDeclarationsModel,
    after: LaneDeclarationsModel,
) -> Result<Compared, ErrorModel> {
    match by_symbol(before.exact) {
        Err(e) => Err(e),
        Ok(b) => match by_symbol(after.exact) {
            Err(e) => Err(e),
            Ok(a) => Ok(
                rest_compared(
                    matches_compared(c, side, b, a, 0),
                    side,
                    unmatched(b, a).len() < b.len(),
                    before.absence_complete && after.absence_complete,
                    unmatched(b, a),
                    unmatched(a, b),
                ),
            ),
        },
    }
}

fn compare_rest(
    side: ImpactSide,
    had_matched: bool,
    absence_complete: bool,
    before: &Vec<ChangeDeclarationEvidence>,
    after: &Vec<ChangeDeclarationEvidence>,
    observations: &mut Vec<KotlinChangeObservation>,
    obligations: &mut Vec<ChangeObligationDetail>,
)
    ensures
        so_far(final(observations).deep_view(), final(obligations).deep_view()) == rest_compared(
            so_far(old(observations).deep_view(), old(obligations).deep_view()),
            side,
            had_matched,
            absence_complete,
            before.deep_view(),
            after.deep_view(),
        ),
{
    if before.len() == 1 && after.len() == 1 && !had_matched {
        assert(before.deep_view()[0] == before@[0].deep_view());
        assert(after.deep_view()[0] == after@[0].deep_view());
        if before[0].compiler_callable_id.is_some() && before[0].compiler_callable_id.same_as(
            &after[0].compiler_callable_id,
        ) {
            compare_declaration_pair(side, &before[0], &after[0], observations, obligations);
            return ;
        }
    }
    if before.len() == 0 && after.len() == 0 {
        return ;
    }
    let (code, left) = if !absence_complete {
        (
            KotlinChangeCode::KcdUnsupportedComparison,
            Some(ComparisonObligationCode::VerifyUnsupportedComparison),
        )
    } else if before.len() > 0 && after.len() > 0 {
        (
            KotlinChangeCode::KcdOverloadSetChanged,
            Some(ComparisonObligationCode::DisambiguateOverloadSet),
        )
    } else if had_matched {
        (KotlinChangeCode::KcdOverloadSetChanged, None)
    } else if before.len() == 0 {
        (KotlinChangeCode::KcdCallableAdded, None)
    } else {
        (KotlinChangeCode::KcdCallableRemoved, None)
    };
    push_observation(observations, code, side, before, after);
    if let Some(left) = left {
        push_obligation(
            obligations,
            side,
            left,
            collect_finding_ids(before),
            collect_finding_ids(after),
        );
    }
}

/// Compares the exact declarations of two lanes.
pub fn compare_exact_lanes(
    side: ImpactSide,
    before_lane: &LaneDeclarations,
    after_lane: &LaneDeclarations,
    observations: &mut Vec<KotlinChangeObservation>,
    obligations: &mut Vec<ChangeObligationDetail>,
) -> (r: Result<(), ClewError>)
    ensures
        match lanes_compared(
            so_far(old(observations).deep_view(), old(obligations).deep_view()),
            side,
            before_lane.deep_view(),
            after_lane.deep_view(),
        ) {
            Ok(c) => r is Ok && so_far(
                final(observations).deep_view(),
                final(obligations).deep_view(),
            ) == c,
            Err(e) => r is Err && r->Err_0.deep_view() == e && final(observations).deep_view()
                == old(observations).deep_view() && final(obligations).deep_view() == old(
                obligations,
            ).deep_view(),
        },
{
    let before = unique_by_symbol(&before_lane.exact)?;
    let after = unique_by_symbol(&after_lane.exact)?;
    compare_matches(side, &before, &after, observations, obligations);
    let unmatched_before = take_unmatched(&before, &after);
    let unmatched_after = take_unmatched(&after, &before);
    let had_matched = unmatched_before.len() < before.len();
    compare_rest(
        side,
        had_matched,
        before_lane.absence_complete && after_lane.absence_complete,
        &unmatched_before,
        &unmatched_after,
        observations,
        obligations,
    );
    Ok(())
}

/// Whether something to be done leaves open whether a declaration is absent.
pub open spec fn blocks_absence(code: ImpactObligationCode) -> bool {
    code == ImpactObligationCode::CompleteDescriptorScope || code
        == ImpactObligationCode::VerifyDeclarationEvidence || code
        == ImpactObligationCode::VerifyRelatedBoundary || code
        == ImpactObligationCode::VerifyBoundaryCheck || code
        == ImpactObligationCode::VerifyFactSetBoundaryScope || code
        == ImpactObligationCode::NarrowOrExpandQuery
}

fn obligation_blocks_absence(code: ImpactObligationCode) -> (r: bool)
    ensures
        r == blocks_absence(code),
{
    match code {
        ImpactObligationCode::CompleteDescriptorScope => true,
        ImpactObligationCode::VerifyDeclarationEvidence => true,
        ImpactObligationCode::VerifyRelatedBoundary => true,
        ImpactObligationCode::VerifyBoundaryCheck => true,
        ImpactObligationCode::VerifyFactSetBoundaryScope => true,
        ImpactObligationCode::NarrowOrExpandQuery => true,
        _ => false,
    }
}

/// Whether something to be done leaves open whether a declaration of a member is
/// absent.
pub open spec fn blocks_member(obligation: ImpactObligationModel, alias: Seq<char>) -> bool {
    (obligation.member_alias is None || obligation.member_alias == Some(alias)) && blocks_absence(
        obligation.code,
    )
}

/// Whether any obligation leaves open whether a declaration of a member is absent.
pub open spec fn any_blocks(obligations: Seq<ImpactObligationModel>, alias: Seq<char>) -> bool {
    exists|i: int| 0 <= i < obligations.len() && blocks_member(#[trigger] obligations[i], alias)
}

fn has_block(obligations: &Vec<ImpactObligation>, alias: &str) -> (r: bool)
    ensures
        r == any_blocks(obligations.deep_view(), alias@),
{
    let ghost m = obligations.deep_view();
    let mut i: usize = 0;
    while i < obligations.len()
        invariant
            i <= obligations.len(),
            m == obligations.deep_view(),
            forall|k: int| 0 <= k < i ==> !blocks_member(#[trigger] m[k], alias@),
        decreases obligations.len() - i,
    {
        assert(m[i as int] == obligations@[i as int].deep_view());
        let concerns = match &obligations[i].member_alias {
            None => true,
            Some(other) => same_text(other.as_str(), alias),
        };
        if concerns && obligation_blocks_absence(obligations[i].code) {
            return true;
        }
        i = i + 1;
    }
    false
}

/// Whether the descriptors of all compilations are complete.
pub open spec fn all_described(compilations: Seq<CallableCompilationBindingModel>) -> bool {
    forall|i: int|
        0 <= i < compilations.len() ==> (#[trigger] compilations[i]).descriptor_coverage
            == GraphCoverage::CompleteSupportedSubset
}

fn described(compilations: &Vec<CallableCompilationBinding>) -> (r: bool)
    ensures
        r == all_described(compilations.deep_view()),
{
    let ghost m = compilations.deep_view();
    let mut i: usize = 0;
    while i < compilations.len()
        invariant
            i <= compilations.len(),
            m == compilations.deep_view(),
            forall|k: int|
                0 <= k < i ==> (#[trigger] m[k]).descriptor_coverage
                    == GraphCoverage::CompleteSupportedSubset,
        decreases compilations.len() - i,
    {
        assert(m[i as int] == compilations@[i as int].deep_view());
        if compilations[i].descriptor_coverage != GraphCoverage::CompleteSupportedSubset {
            return false;
        }
        i = i + 1;
    }
    true
}

/// The declaration of a finding that is one.
pub open spec fn declaration_of(f: ImpactFindingModel) -> Option<ChangeDeclarationEvidenceModel> {
    match f.detail {
        ImpactFindingDetailModel::Declaration {
            declaration_kind,
            symbol_identity,
            compiler_callable_id,
            compiler_class_id,
            projected_shape,
        } => Some(
            ChangeDeclarationEvidenceModel {
                finding_id: f.finding_id,
                fact_id: f.evidence.fact_id,
                member_alias: f.member_alias,
                authority: f.authority,
                declaration_kind,
                symbol_identity,
                compiler_callable_id,
                compiler_class_id,
                shape_digest: f.evidence.shape_digest,
                projected_shape,
            },
        ),
        _ => None,
    }
}

fn declaration_evidence(finding: &ImpactFinding) -> (r: Option<ChangeDeclarationEvidence>)
    ensures
        r.deep_view() == declaration_of(finding.deep_view()),
{
    match &finding.detail {
        ImpactFindingDetail::Declaration {
            declaration_kind,
            symbol_identity,
            compiler_callable_id,
            compiler_class_id,
            projected_shape,
        } => Some(
            ChangeDeclarationEvidence {
                finding_id: finding.finding_id.clone(),
                fact_id: finding.evidence.fact_id.clone(),
                member_alias: finding.member_alias.clone(),
                authority: finding.authority,
                declaration_kind: *declaration_kind,
                symbol_identity: symbol_identity.clone(),
                compiler_callable_id: compiler_callable_id.copied(),
                compiler_class_id: compiler_class_id.copied(),
                shape_digest: finding.evidence.shape_digest.copied(),
                projected_shape: projected_shape.copied(),
            },
        ),
        _ => None,
    }
}

/// Whether a declaration can be compared exactly.
pub open spec fn is_exact(d: ChangeDeclarationEvidenceModel) -> bool {
    d.authority == ImpactFindingAuthority::ExactProjectedDeclaration && d.shape_digest is Some
}

/// A lane with a finding of its side added.
pub open spec fn finding_laned(lane: LaneDeclarationsModel, f: ImpactFindingModel) -> LaneDeclarationsModel {
    match (f.detail, declaration_of(f)) {
        (_, Some(d)) => if is_exact(d) {
            LaneDeclarationsModel { exact: lane.exact.push(d), ..lane }
        } else {
            LaneDeclarationsModel {
                unsupported_declarations: lane.unsupported_declarations.push(d),
                unsupported_finding_ids: lane.unsupported_finding_ids.push(f.finding_id),
                ..lane
            }
        },
        (ImpactFindingDetailModel::Boundary { .. }, None) => LaneDeclarationsModel {
            unsupported_finding_ids: lane.unsupported_finding_ids.push(f.finding_id),
            ..lane
        },
        _ => lane,
    }
}

/// A lane with those of the first `n` findings added that are of its side.
pub open spec fn findings_laned(findings: Seq<ImpactFindingModel>, side: ImpactSide, n: nat) -> LaneDeclarationsModel
    decreases n,
{
    if n == 0 || n > findings.len() {
        LaneDeclarationsModel {
            exact: Seq::empty(),
            unsupported_declarations: Seq::empty(),
            unsupported_finding_ids: Seq::empty(),
            absence_complete: true,
        }
    } else {
        let before = findings_laned(findings, side, (n - 1) as nat);
        if findings[n - 1].side == side {
            finding_laned(before, findings[n - 1])
        } else {
            before
        }
    }
}

/// The member of a side of a pair.
pub open spec fn member_of_side(side: VerifiedChangeSideModel, lane: ImpactSide) -> Seq<char> {
    match lane {
        ImpactSide::Provider => side.impact.authority.pair.provider_member,
        ImpactSide::Consumer => side.impact.authority.pair.consumer_member,
    }
}

/// The declarations of one side of an impact that are compared.
#[verifier::opaque]
pub open spec fn laned(input: VerifiedChangeSideModel, side: ImpactSide) -> Result<
    LaneDeclarationsModel,
    ErrorModel,
> {
    let selection = input.impact.evidence.selection;
    let lane = findings_laned(selection.findings, side, selection.findings.len());
    let alias = member_of_side(input, side);
    match record_at::<CallableMemberBinding>(input.fact_set.authority.members, alias) {
        None => corrupted("fact set omits a declared thread member"@),
        Some(member) => Ok(
            LaneDeclarationsModel {
                exact: sorted::<ChangeDeclarationEvidence>(lane.exact),
                unsupported_declarations: sorted::<ChangeDeclarationEvidence>(
                    lane.unsupported_declarations,
                ),
                unsupported_finding_ids: first_table::<String>(lane.unsupported_finding_ids),
                absence_complete: first_table::<String>(lane.unsupported_finding_ids).len() == 0
                    && !selection.findings_truncated
                    && input.fact_set.authority.completeness.coverage
                    == CallableFactSetCoverage::Complete && all_described(member.compilations)
                    && !any_blocks(selection.obligations, alias),
            },
        ),
    }
}

fn push_declaration(list: &mut Vec<ChangeDeclarationEvidence>, d: ChangeDeclarationEvidence)
    ensures
        final(list).deep_view() == old(list).deep_view().push(d.deep_view()),
{
    let ghost before = list.deep_view();
    let ghost added = d.deep_view();
    list.push(d);
    assert(list.deep_view() =~= before.push(added));
}

fn push_text(list: &mut Vec<String>, s: &String)
    ensures
        final(list).deep_view() == old(list).deep_view().push(s@),
{
    let ghost before = list.deep_view();
    list.push(s.clone());
    assert(list.deep_view() =~= before.push(s@));
}

fn lane_finding(lane: &mut LaneDeclarations, finding: &ImpactFinding)
    ensures
        final(lane).deep_view() == finding_laned(old(lane).deep_view(), finding.deep_view()),
{
    match declaration_evidence(finding) {
        Some(d) => {
            if d.authority == ImpactFindingAuthority::ExactProjectedDeclaration
                && d.shape_digest.is_some() {
                push_declaration(&mut lane.exact, d);
            } else {
                push_text(&mut lane.unsupported_finding_ids, &finding.finding_id);
                push_declaration(&mut lane.unsupported_declarations, d);
            }
        },
        None => {
            if let ImpactFindingDetail::Boundary { .. } = &finding.detail {
                push_text(&mut lane.unsupported_finding_ids, &finding.finding_id);
            }
        },
    }
}

fn lane_findings(findings: &Vec<ImpactFinding>, side: ImpactSide) -> (r: LaneDeclarations)
    ensures
        r.deep_view() == findings_laned(findings.deep_view(), side, findings@.len()),
{
    let ghost m = findings.deep_view();
    let mut lane = LaneDeclarations {
        exact: Vec::new(),
        unsupported_declarations: Vec::new(),
        unsupported_finding_ids: Vec::new(),
        absence_complete: true,
    };
    let mut i: usize = 0;
    proof {
        let empty = findings_laned(m, side, 0);
        assert(lane.exact.deep_view() =~= empty.exact);
        assert(lane.unsupported_declarations.deep_view() =~= empty.unsupported_declarations);
        assert(lane.unsupported_finding_ids.deep_view() =~= empty.unsupported_finding_ids);
    }
    while i < findings.len()
        invariant
            i <= findings.len(),
            m == findings.deep_view(),
            lane.deep_view() == findings_laned(m, side, i as nat),
        decreases findings.len() - i,
    {
        assert(m[i as int] == findings@[i as int].deep_view());
        if findings[i].side == side {
            lane_finding(&mut lane, &findings[i]);
        }
        i = i + 1;
    }
    lane
}

fn lane_declarations(input: &VerifiedChangeSide<'_>, side: ImpactSide) -> (r: Result<
    LaneDeclarations,
    ClewError,
>)
    ensures
        outcome(r) == laned(input.deep_view(), side),
{
    proof {
        reveal(laned);
    }
    let selection = &input.impact.evidence.selection;
    let lane = lane_findings(&selection.findings, side);
    let alias = match side {
        ImpactSide::Provider => &input.impact.authority.pair.provider_member,
        ImpactSide::Consumer => &input.impact.authority.pair.consumer_member,
    };
    let member = match find_record(&input.fact_set.authority.members, alias.as_str()) {
        Some(member) => member,
        None => {
            return Err(corrupt("fact set omits a declared thread member"));
        },
    };
    let unsupported_finding_ids = table_of(&lane.unsupported_finding_ids);
    let absence_complete = unsupported_finding_ids.len() == 0 && !selection.findings_truncated
        && input.fact_set.authority.completeness.coverage == CallableFactSetCoverage::Complete
        && described(&member.compilations) && !has_block(&selection.obligations, alias.as_str());
    Ok(
        LaneDeclarations {
            exact: sort(&lane.exact),
            unsupported_declarations: sort(&lane.unsupported_declarations),
            unsupported_finding_ids,
            absence_complete,
        },
    )
}

/// What comparing one side of two impacts finds.
pub open spec fn lane_compared(
    c: Compared,
    side: ImpactSide,
    before: VerifiedChangeSideModel,
    after: VerifiedChangeSideModel,
) -> Result<Compared, ErrorModel> {
    match laned(before, side) {
        Err(e) => Err(e),
        Ok(b) => match laned(after, side) {
            Err(e) => Err(e),
            Ok(a) => {
                let truncated = before.impact.evidence.selection.findings_truncated
                    || after.impact.evidence.selection.findings_truncated;
                lanes_compared(
                    if b.unsupported_finding_ids.len() > 0 || a.unsupported_finding_ids.len() > 0
                        || truncated {
                        Compared {
                            observations: c.observations.push(
                                observed(
                                    KotlinChangeCode::KcdUnsupportedComparison,
                                    side,
                                    b.unsupported_declarations,
                                    a.unsupported_declarations,
                                ),
                            ),
                            obligations: c.obligations.push(
                                left_open(
                                    side,
                                    if truncated {
                                        ComparisonObligationCode::VerifyTruncatedImpactEvidence
                                    } else {
                                        ComparisonObligationCode::VerifyUnsupportedComparison
                                    },
                                    b.unsupported_finding_ids,
                                    a.unsupported_finding_ids,
                                ),
                            ),
                        }
                    } else {
                        c
                    },
                    side,
                    b,
                    a,
                )
            },
        },
    }
}

fn compare_lane(
    side: ImpactSide,
    before: &VerifiedChangeSide<'_>,
    after: &VerifiedChangeSide<'_>,
    observations: &mut Vec<KotlinChangeObservation>,
    obligations: &mut Vec<ChangeObligationDetail>,
) -> (r: Result<(), ClewError>)
    ensures
        match lane_compared(
            so_far(old(observations).deep_view(), old(obligations).deep_view()),
            side,
            before.deep_view(),
            after.deep_view(),
        ) {
            Ok(c) => r is Ok && so_far(
                final(observations).deep_view(),
                final(obligations).deep_view(),
            ) == c,
            Err(e) => r is Err && r->Err_0.deep_view() == e,
        },
{
    let before_lane = lane_declarations(before, side)?;
    let after_lane = lane_declarations(after, side)?;
    let truncated = before.impact.evidence.selection.findings_truncated
        || after.impact.evidence.selection.findings_truncated;
    if before_lane.unsupported_finding_ids.len() > 0 || after_lane.unsupported_finding_ids.len()
        > 0 || truncated {
        push_observation(
            observations,
            KotlinChangeCode::KcdUnsupportedComparison,
            side,
            &before_lane.unsupported_declarations,
            &after_lane.unsupported_declarations,
        );
        push_obligation(
            obligations,
            side,
            if truncated {
                ComparisonObligationCode::VerifyTruncatedImpactEvidence
            } else {
                ComparisonObligationCode::VerifyUnsupportedComparison
            },
            before_lane.unsupported_finding_ids.copied(),
            after_lane.unsupported_finding_ids.copied(),
        );
    }
    compare_exact_lanes(side, &before_lane, &after_lane, observations, obligations)
}

/// What comparing two impacts finds.
pub open spec fn impacts_compared(
    before: VerifiedChangeSideModel,
    after: VerifiedChangeSideModel,
) -> Result<Compared, ErrorModel> {
    match lane_compared(
        so_far(Seq::empty(), Seq::empty()),
        ImpactSide::Provider,
        before,
        after,
    ) {
        Err(e) => Err(e),
        Ok(c) => lane_compared(c, ImpactSide::Consumer, before, after),
    }
}

fn compare_impacts(before: &VerifiedChangeSide<'_>, after: &VerifiedChangeSide<'_>) -> (r: Result<
    (Vec<KotlinChangeObservation>, Vec<ChangeObligationDetail>),
    ClewError,
>)
    ensures
        match impacts_compared(before.deep_view(), after.deep_view()) {
            Ok(c) => r is Ok && so_far(r->Ok_0.0.deep_view(), r->Ok_0.1.deep_view()) == c,
            Err(e) => r is Err && r->Err_0.deep_view() == e,
        },
{
    let mut observations: Vec<KotlinChangeObservation> = Vec::new();
    let mut obligations: Vec<ChangeObligationDetail> = Vec::new();
    assert(observations.deep_view() =~= Seq::empty());
    assert(obligations.deep_view() =~= Seq::empty());
    compare_lane(ImpactSide::Provider, before, after, &mut observations, &mut obligations)?;
    compare_lane(ImpactSide::Consumer, before, after, &mut observations, &mut obligations)?;
    Ok((observations, obligations))
}

/// What an impact leaves to be done, as part of a change.
pub open spec fn upstream(
    obligations: Seq<ImpactObligationModel>,
    phase: ChangeObligationPhase,
) -> Seq<ChangeObligationDetailModel> {
    Seq::new(
        obligations.len(),
        |i: int| ChangeObligationDetailModel::Upstream { phase, obligation: obligations[i] },
    )
}

fn push_upstream(
    details: &mut Vec<ChangeObligationDetail>,
    obligations: &Vec<ImpactObligation>,
    phase: ChangeObligationPhase,
)
    ensures
        final(details).deep_view() == old(details).deep_view() + upstream(
            obligations.deep_view(),
            phase,
        ),
{
    let ghost start = details.deep_view();
    let ghost m = upstream(obligations.deep_view(), phase);
    let mut i: usize = 0;
    assert(details.deep_view() =~= start + m.take(0));
    while i < obligations.len()
        invariant
            i <= obligations.len(),
            m == upstream(obligations.deep_view(), phase),
            details.deep_view() == start + m.take(i as int),
        decreases obligations.len() - i,
    {
        let ghost before = details.deep_view();
        assert(obligations.deep_view()[i as int] == obligations@[i as int].deep_view());
        details.push(
            ChangeObligationDetail::Upstream { phase, obligation: obligations[i].copied() },
        );
        assert(details.deep_view() =~= before.push(m[i as int]));
        assert(start + m.take(i + 1) =~= (start + m.take(i as int)).push(m[i as int]));
        i = i + 1;
    }
    assert(m.take(m.len() as int) =~= m);
}

/// What the identity of an obligation is taken of.
pub open spec fn obligation_material(detail: ChangeObligationDetailModel) -> JsonModel {
    JsonModel::object().with(
        "schema"@,
        JsonModel::Str("codeclew-kotlin-change-obligation/1.0"@),
    ).with("detail"@, <ChangeObligationDetail as Record>::json(detail))
}

/// An obligation with its identity.
pub open spec fn obliged(detail: ChangeObligationDetailModel) -> ChangeObligationModel {
    ChangeObligationModel { obligation_id: json_digest(obligation_material(detail)), detail }
}

/// What a change leaves to be done: what the two impacts leave, and what comparing
/// them leaves, in order, each once.
pub open spec fn obligations_collected(
    before: Seq<ImpactObligationModel>,
    after: Seq<ImpactObligationModel>,
    comparison: Seq<ChangeObligationDetailModel>,
    max_obligations: usize,
) -> Result<Seq<ChangeObligationModel>, ErrorModel> {
    let details = order::first_table::<ChangeObligationDetail>(
        upstream(before, ChangeObligationPhase::Before) + upstream(
            after,
            ChangeObligationPhase::After,
        ) + comparison,
    );
    match at_most(
        details.len(),
        max_obligations as nat,
        "Kotlin change obligations exceed the frozen 4,096 bound"@,
    ) {
        Err(e) => Err(e),
        Ok(_) => Ok(Seq::new(details.len(), |i: int| obliged(details[i]))),
    }
}

fn make_obligation(detail: &ChangeObligationDetail) -> (r: ChangeObligation)
    ensures
        r.deep_view() == obliged(detail.deep_view()),
{
    let material = Json::object().with(
        "schema",
        Json::Str("codeclew-kotlin-change-obligation/1.0".to_owned()),
    ).with("detail", detail.to_json());
    ChangeObligation { obligation_id: hash(&material), detail: detail.copied() }
}

fn make_obligations(details: &Vec<ChangeObligationDetail>) -> (r: Vec<ChangeObligation>)
    ensures
        r.deep_view() == Seq::new(details@.len(), |i: int| obliged(details.deep_view()[i])),
{
    let ghost m = details.deep_view();
    let mut made: Vec<ChangeObligation> = Vec::new();
    let mut i: usize = 0;
    while i < details.len()
        invariant
            i <= details.len(),
            m == details.deep_view(),
            made@.len() == i,
            forall|k: int| 0 <= k < i ==> (#[trigger] made@[k]).deep_view() == obliged(m[k]),
        decreases details.len() - i,
    {
        assert(m[i as int] == details@[i as int].deep_view());
        made.push(make_obligation(&details[i]));
        i = i + 1;
    }
    assert(made.deep_view() =~= Seq::new(
        details@.len(),
        |i: int| obliged(details.deep_view()[i]),
    ));
    made
}

fn collect_obligations(
    before: &Vec<ImpactObligation>,
    after: &Vec<ImpactObligation>,
    comparison: &mut Vec<ChangeObligationDetail>,
    max_obligations: usize,
) -> (r: Result<Vec<ChangeObligation>, ClewError>)
    ensures
        outcome(r) == obligations_collected(
            before.deep_view(),
            after.deep_view(),
            old(comparison).deep_view(),
            max_obligations,
        ),
{
    let mut details: Vec<ChangeObligationDetail> = Vec::new();
    assert(details.deep_view() =~= Seq::empty());
    push_upstream(&mut details, before, ChangeObligationPhase::Before);
    assert(details.deep_view() =~= upstream(before.deep_view(), ChangeObligationPhase::Before));
    push_upstream(&mut details, after, ChangeObligationPhase::After);
    let ghost so_far = details.deep_view();
    details.append(comparison);
    assert(details.deep_view() =~= so_far + old(comparison).deep_view());
    let table = order::table_of(&details);
    enforce_at_most(
        table.len(),
        max_obligations,
        "Kotlin change obligations exceed the frozen 4,096 bound",
    )?;
    let made = make_obligations(&table);
    assert(made.deep_view() =~= Seq::new(
        table.deep_view().len(),
        |i: int| obliged(table.deep_view()[i]),
    ));
    Ok(made)
}

/// What the identity of a target is taken of.
pub open spec fn target_material(
    comparison_digest: Seq<char>,
    kind: CoverageTargetKind,
    categories: Seq<VerificationCategory>,
    subject: CoverageTargetSubjectModel,
) -> JsonModel {
    JsonModel::object().with(
        "schema"@,
        JsonModel::Str("codeclew-kotlin-change-coverage-target/1.0"@),
    ).with("comparisonDigest"@, JsonModel::Str(comparison_digest)).with(
        "targetKind"@,
        <CoverageTargetKind as Record>::json(kind),
    ).with("requiredCategories"@, <Vec<VerificationCategory> as Record>::json(categories)).with(
        "subject"@,
        <CoverageTargetSubject as Record>::json(subject),
    )
}

/// A target. Its categories stand in order, each once.
#[verifier::opaque]
pub open spec fn target_of(
    comparison_digest: Seq<char>,
    kind: CoverageTargetKind,
    categories: Seq<VerificationCategory>,
    subject: CoverageTargetSubjectModel,
) -> CoverageTargetModel {
    let required = order::first_table::<VerificationCategory>(categories);
    CoverageTargetModel {
        target_id: json_digest(target_material(comparison_digest, kind, required, subject)),
        target_kind: kind,
        required_categories: required,
        subject,
    }
}

/// Makes a target.
pub fn target(
    comparison_digest: &str,
    target_kind: CoverageTargetKind,
    required_categories: &Vec<VerificationCategory>,
    subject: CoverageTargetSubject,
) -> (r: CoverageTarget)
    ensures
        r.deep_view() == target_of(
            comparison_digest@,
            target_kind,
            required_categories.deep_view(),
            subject.deep_view(),
        ),
{
    proof {
        reveal(target_of);
    }
    let categories = order::table_of(required_categories);
    let material = Json::object().with(
        "schema",
        Json::Str("codeclew-kotlin-change-coverage-target/1.0".to_owned()),
    ).with("comparisonDigest", Json::Str(comparison_digest.to_owned())).with(
        "targetKind",
        target_kind.to_json(),
    ).with("requiredCategories", categories.to_json()).with("subject", subject.to_json());
    CoverageTarget {
        target_id: hash(&material),
        target_kind,
        required_categories: categories,
        subject,
    }
}

/// The target of a member.
pub open spec fn member_target(
    comparison_digest: Seq<char>,
    before: VerifiedChangeSideModel,
    mapping: MemberCorrespondenceModel,
) -> Result<CoverageTargetModel, ErrorModel> {
    let pair = before.impact.authority.pair;
    match record_at::<ThreadMemberBinding>(before.thread.members, mapping.before_member_alias) {
        None => refused("member correspondence references an unknown thread member"@),
        Some(member) => if mapping.before_member_alias != pair.provider_member
            && mapping.before_member_alias != pair.consumer_member {
            corrupted("compared pair member has no provider or consumer role"@)
        } else {
            Ok(
                target_of(
                    comparison_digest,
                    CoverageTargetKind::DeclaredMember,
                    seq![
                        VerificationCategory::MemberAuthority,
                        VerificationCategory::RelationshipAuthority,
                    ],
                    CoverageTargetSubjectModel::DeclaredMember {
                        before_member_alias: mapping.before_member_alias,
                        after_member_alias: mapping.after_member_alias,
                        service_alias: member.service_alias,
                        role: if mapping.before_member_alias == pair.provider_member {
                            ChangeMemberRole::Provider
                        } else {
                            ChangeMemberRole::Consumer
                        },
                    },
                ),
            )
        },
    }
}

/// The targets of the members from one on.
pub open spec fn member_targets(
    targets: Seq<CoverageTargetModel>,
    comparison_digest: Seq<char>,
    before: VerifiedChangeSideModel,
    correspondence: Seq<MemberCorrespondenceModel>,
    i: int,
) -> Result<Seq<CoverageTargetModel>, ErrorModel>
    decreases correspondence.len() - i,
{
    if i < 0 || i >= correspondence.len() {
        Ok(targets)
    } else {
        match member_target(comparison_digest, before, correspondence[i]) {
            Err(e) => Err(e),
            Ok(target) => member_targets(
                targets.push(target),
                comparison_digest,
                before,
                correspondence,
                i + 1,
            ),
        }
    }
}

/// The target of an observation.
pub open spec fn observation_target(
    comparison_digest: Seq<char>,
    o: KotlinChangeObservationModel,
) -> CoverageTargetModel {
    target_of(
        comparison_digest,
        CoverageTargetKind::Observation,
        if o.code == KotlinChangeCode::KcdUnsupportedComparison {
            seq![VerificationCategory::StructuralComparison, VerificationCategory::CompilerBoundary]
        } else {
            seq![VerificationCategory::StructuralComparison]
        },
        CoverageTargetSubjectModel::Observation {
            observation_id: o.observation_id,
            code: o.code,
            side: o.side,
        },
    )
}

/// Where an obligation comes from.
pub open spec fn phase_of(detail: ChangeObligationDetailModel) -> ChangeObligationPhase {
    match detail {
        ChangeObligationDetailModel::Upstream { phase, .. } => phase,
        ChangeObligationDetailModel::Comparison { phase, .. } => phase,
    }
}

/// Whether an obligation of an impact needs the compiler.
pub open spec fn needs_compiler(code: ImpactObligationCode) -> bool {
    code == ImpactObligationCode::ProjectedDeclarationNotObserved || code
        == ImpactObligationCode::DisambiguateOverloadSet || code
        == ImpactObligationCode::CompleteDescriptorScope || code
        == ImpactObligationCode::VerifyDeclarationEvidence || code
        == ImpactObligationCode::VerifyRelatedBoundary || code
        == ImpactObligationCode::VerifyBoundaryCheck || code
        == ImpactObligationCode::VerifyFactSetBoundaryScope
}

/// What an obligation needs to be verified.
pub open spec fn categories_of(detail: ChangeObligationDetailModel) -> Seq<VerificationCategory> {
    match detail {
        ChangeObligationDetailModel::Comparison { .. } => seq![
            VerificationCategory::ComparisonBoundary,
            VerificationCategory::CompilerBoundary,
        ],
        ChangeObligationDetailModel::Upstream { obligation, .. } => added_if(
            added_if(
                seq![VerificationCategory::UpstreamObligation],
                obligation.code == ImpactObligationCode::VerifyRelationshipAuthority,
                VerificationCategory::RelationshipAuthority,
            ),
            needs_compiler(obligation.code),
            VerificationCategory::CompilerBoundary,
        ),
    }
}

/// The target of an obligation.
pub open spec fn obligation_target(comparison_digest: Seq<char>, o: ChangeObligationModel) -> CoverageTargetModel {
    target_of(
        comparison_digest,
        CoverageTargetKind::Obligation,
        categories_of(o.detail),
        CoverageTargetSubjectModel::Obligation {
            obligation_id: o.obligation_id,
            phase: phase_of(o.detail),
        },
    )
}

/// The targets of a change, in the order of their identities.
pub open spec fn targets_built(
    comparison_digest: Seq<char>,
    before: VerifiedChangeSideModel,
    correspondence: Seq<MemberCorrespondenceModel>,
    observations: Seq<KotlinChangeObservationModel>,
    obligations: Seq<ChangeObligationModel>,
    max_rows: usize,
) -> Result<Seq<CoverageTargetModel>, ErrorModel> {
    match member_targets(Seq::empty(), comparison_digest, before, correspondence, 0) {
        Err(e) => Err(e),
        Ok(members) => {
            let targets = sorted::<CoverageTarget>(
                members + Seq::new(
                    observations.len(),
                    |i: int| observation_target(comparison_digest, observations[i]),
                ) + Seq::new(
                    obligations.len(),
                    |i: int| obligation_target(comparison_digest, obligations[i]),
                ),
            );
            match at_most(
                targets.len(),
                max_rows as nat,
                "Kotlin change validation rows exceed the frozen 8,192 bound"@,
            ) {
                Err(e) => Err(e),
                Ok(_) => if repeats::<CoverageTarget>(targets) {
                    corrupted("Kotlin change targets repeat an identity"@)
                } else {
                    Ok(targets)
                },
            }
        },
    }
}

fn make_member_target(
    comparison_digest: &str,
    before: &VerifiedChangeSide<'_>,
    mapping: &MemberCorrespondence,
) -> (r: Result<CoverageTarget, ClewError>)
    ensures
        outcome(r) == member_target(
            comparison_digest@,
            before.deep_view(),
            mapping.deep_view(),
        ),
{
    let member = match find_record(
        &before.thread.members,
        mapping.before_member_alias.as_str(),
    ) {
        Some(member) => member,
        None => {
            return Err(invalid("member correspondence references an unknown thread member"));
        },
    };
    let pair = &before.impact.authority.pair;
    let role = if mapping.before_member_alias.same_as(&pair.provider_member) {
        ChangeMemberRole::Provider
    } else if mapping.before_member_alias.same_as(&pair.consumer_member) {
        ChangeMemberRole::Consumer
    } else {
        return Err(corrupt("compared pair member has no provider or consumer role"));
    };
    let categories = vec![
        VerificationCategory::MemberAuthority,
        VerificationCategory::RelationshipAuthority,
    ];
    assert(categories.deep_view() =~= seq![
        VerificationCategory::MemberAuthority,
        VerificationCategory::RelationshipAuthority,
    ]);
    Ok(
        target(
            comparison_digest,
            CoverageTargetKind::DeclaredMember,
            &categories,
            CoverageTargetSubject::DeclaredMember {
                before_member_alias: mapping.before_member_alias.clone(),
                after_member_alias: mapping.after_member_alias.clone(),
                service_alias: member.service_alias.clone(),
                role,
            },
        ),
    )
}

fn make_observation_target(comparison_digest: &str, o: &KotlinChangeObservation) -> (r: CoverageTarget)
    ensures
        r.deep_view() == observation_target(comparison_digest@, o.deep_view()),
{
    let mut categories = vec![VerificationCategory::StructuralComparison];
    if o.code == KotlinChangeCode::KcdUnsupportedComparison {
        categories.push(VerificationCategory::CompilerBoundary);
        assert(categories.deep_view() =~= seq![
            VerificationCategory::StructuralComparison,
            VerificationCategory::CompilerBoundary,
        ]);
    } else {
        assert(categories.deep_view() =~= seq![VerificationCategory::StructuralComparison]);
    }
    target(
        comparison_digest,
        CoverageTargetKind::Observation,
        &categories,
        CoverageTargetSubject::Observation {
            observation_id: o.observation_id.clone(),
            code: o.code,
            side: o.side,
        },
    )
}

fn obligation_requires_compiler(code: ImpactObligationCode) -> (r: bool)
    ensures
        r == needs_compiler(code),
{
    match code {
        ImpactObligationCode::ProjectedDeclarationNotObserved => true,
        ImpactObligationCode::DisambiguateOverloadSet => true,
        ImpactObligationCode::CompleteDescriptorScope => true,
        ImpactObligationCode::VerifyDeclarationEvidence => true,
        ImpactObligationCode::VerifyRelatedBoundary => true,
        ImpactObligationCode::VerifyBoundaryCheck => true,
        ImpactObligationCode::VerifyFactSetBoundaryScope => true,
        _ => false,
    }
}

fn obligation_categories(detail: &ChangeObligationDetail) -> (r: Vec<VerificationCategory>)
    ensures
        r.deep_view() == categories_of(detail.deep_view()),
{
    let mut categories: Vec<VerificationCategory> = Vec::new();
    match detail {
        ChangeObligationDetail::Comparison { .. } => {
            categories.push(VerificationCategory::ComparisonBoundary);
            categories.push(VerificationCategory::CompilerBoundary);
        },
        ChangeObligationDetail::Upstream { obligation, .. } => {
            categories.push(VerificationCategory::UpstreamObligation);
            if obligation.code == ImpactObligationCode::VerifyRelationshipAuthority {
                categories.push(VerificationCategory::RelationshipAuthority);
            }
            if obligation_requires_compiler(obligation.code) {
                categories.push(VerificationCategory::CompilerBoundary);
            }
        },
    }
    assert(categories.deep_view() =~= categories_of(detail.deep_view()));
    categories
}

fn make_obligation_target(comparison_digest: &str, o: &ChangeObligation) -> (r: CoverageTarget)
    ensures
        r.deep_view() == obligation_target(comparison_digest@, o.deep_view()),
{
    let phase = match &o.detail {
        ChangeObligationDetail::Upstream { phase, .. } => *phase,
        ChangeObligationDetail::Comparison { phase, .. } => *phase,
    };
    target(
        comparison_digest,
        CoverageTargetKind::Obligation,
        &obligation_categories(&o.detail),
        CoverageTargetSubject::Obligation { obligation_id: o.obligation_id.clone(), phase },
    )
}

fn push_member_targets(
    targets: &mut Vec<CoverageTarget>,
    comparison_digest: &str,
    before: &VerifiedChangeSide<'_>,
    correspondence: &Vec<MemberCorrespondence>,
) -> (r: Result<(), ClewError>)
    ensures
        match member_targets(
            old(targets).deep_view(),
            comparison_digest@,
            before.deep_view(),
            correspondence.deep_view(),
            0,
        ) {
            Ok(after) => r is Ok && final(targets).deep_view() == after,
            Err(e) => r is Err && r->Err_0.deep_view() == e,
        },
{
    let ghost start = targets.deep_view();
    let ghost m = correspondence.deep_view();
    let ghost b = before.deep_view();
    let mut i: usize = 0;
    while i < correspondence.len()
        invariant
            i <= correspondence.len(),
            m == correspondence.deep_view(),
            b == before.deep_view(),
            start == old(targets).deep_view(),
            member_targets(start, comparison_digest@, b, m, 0) == member_targets(
                targets.deep_view(),
                comparison_digest@,
                b,
                m,
                i as int,
            ),
        decreases correspondence.len() - i,
    {
        let ghost now = targets.deep_view();
        assert(m[i as int] == correspondence@[i as int].deep_view());
        let made = make_member_target(comparison_digest, before, &correspondence[i])?;
        let ghost added = made.deep_view();
        targets.push(made);
        assert(targets.deep_view() =~= now.push(added));
        i = i + 1;
    }
    Ok(())
}

fn push_observation_targets(
    targets: &mut Vec<CoverageTarget>,
    comparison_digest: &str,
    observations: &Vec<KotlinChangeObservation>,
)
    ensures
        final(targets).deep_view() == old(targets).deep_view() + Seq::new(
            observations@.len(),
            |i: int| observation_target(comparison_digest@, observations.deep_view()[i]),
        ),
{
    let ghost start = targets.deep_view();
    let ghost m = Seq::new(
        observations@.len(),
        |i: int| observation_target(comparison_digest@, observations.deep_view()[i]),
    );
    let mut i: usize = 0;
    assert(targets.deep_view() =~= start + m.take(0));
    while i < observations.len()
        invariant
            i <= observations.len(),
            m == Seq::new(
                observations@.len(),
                |i: int| observation_target(comparison_digest@, observations.deep_view()[i]),
            ),
            targets.deep_view() == start + m.take(i as int),
        decreases observations.len() - i,
    {
        let ghost now = targets.deep_view();
        assert(observations.deep_view()[i as int] == observations@[i as int].deep_view());
        targets.push(make_observation_target(comparison_digest, &observations[i]));
        assert(targets.deep_view() =~= now.push(m[i as int]));
        assert(start + m.take(i + 1) =~= (start + m.take(i as int)).push(m[i as int]));
        i = i + 1;
    }
    assert(m.take(m.len() as int) =~= m);
}

fn push_obligation_targets(
    targets: &mut Vec<CoverageTarget>,
    comparison_digest: &str,
    obligations: &Vec<ChangeObligation>,
)
    ensures
        final(targets).deep_view() == old(targets).deep_view() + Seq::new(
            obligations@.len(),
            |i: int| obligation_target(comparison_digest@, obligations.deep_view()[i]),
        ),
{
    let ghost start = targets.deep_view();
    let ghost m = Seq::new(
        obligations@.len(),
        |i: int| obligation_target(comparison_digest@, obligations.deep_view()[i]),
    );
    let mut i: usize = 0;
    assert(targets.deep_view() =~= start + m.take(0));
    while i < obligations.len()
        invariant
            i <= obligations.len(),
            m == Seq::new(
                obligations@.len(),
                |i: int| obligation_target(comparison_digest@, obligations.deep_view()[i]),
            ),
            targets.deep_view() == start + m.take(i as int),
        decreases obligations.len() - i,
    {
        let ghost now = targets.deep_view();
        assert(obligations.deep_view()[i as int] == obligations@[i as int].deep_view());
        targets.push(make_obligation_target(comparison_digest, &obligations[i]));
        assert(targets.deep_view() =~= now.push(m[i as int]));
        assert(start + m.take(i + 1) =~= (start + m.take(i as int)).push(m[i as int]));
        i = i + 1;
    }
    assert(m.take(m.len() as int) =~= m);
}

fn build_targets(
    comparison_digest: &str,
    before: &VerifiedChangeSide<'_>,
    correspondence: &Vec<MemberCorrespondence>,
    observations: &Vec<KotlinChangeObservation>,
    obligations: &Vec<ChangeObligation>,
    max_rows: usize,
) -> (r: Result<Vec<CoverageTarget>, ClewError>)
    ensures
        outcome(r) == targets_built(
            comparison_digest@,
            before.deep_view(),
            correspondence.deep_view(),
            observations.deep_view(),
            obligations.deep_view(),
            max_rows,
        ),
{
    let mut unsorted: Vec<CoverageTarget> = Vec::new();
    assert(unsorted.deep_view() =~= Seq::empty());
    push_member_targets(&mut unsorted, comparison_digest, before, correspondence)?;
    push_observation_targets(&mut unsorted, comparison_digest, observations);
    push_obligation_targets(&mut unsorted, comparison_digest, obligations);
    proof {
        let o = observations.deep_view();
        let b = obligations.deep_view();
        assert(Seq::new(
            observations@.len(),
            |i: int| observation_target(comparison_digest@, observations.deep_view()[i]),
        ) =~= Seq::new(o.len(), |i: int| observation_target(comparison_digest@, o[i])));
        assert(Seq::new(
            obligations@.len(),
            |i: int| obligation_target(comparison_digest@, obligations.deep_view()[i]),
        ) =~= Seq::new(b.len(), |i: int| obligation_target(comparison_digest@, b[i])));
        sorted_is_sorted::<CoverageTarget>(unsorted.deep_view());
    }
    let targets = sort(&unsorted);
    enforce_at_most(
        targets.len(),
        max_rows,
        "Kotlin change validation rows exceed the frozen 8,192 bound",
    )?;
    if has_repeats(&targets) {
        return Err(corrupt("Kotlin change targets repeat an identity"));
    }
    Ok(targets)
}

/// An entry of a coverage document with its categories in order.
pub open spec fn entry_ordered(entry: CoverageDocumentEntryModel) -> CoverageDocumentEntryModel {
    CoverageDocumentEntryModel {
        required_categories: order::first_table::<VerificationCategory>(entry.required_categories),
        ..entry
    }
}

/// The entries from one on, with their categories in order, behind others.
pub open spec fn entries_from(
    entries: Seq<CoverageDocumentEntryModel>,
    before: Seq<CoverageDocumentEntryModel>,
    i: int,
) -> Result<Seq<CoverageDocumentEntryModel>, ErrorModel>
    decreases entries.len() - i,
{
    if i < 0 || i >= entries.len() {
        Ok(before)
    } else {
        let entry = entries[i];
        if !is_digest(entry.target_id) || has_key::<CoverageDocumentEntry>(before, entry.target_id)
            || !is_safe_tracking_id(entry.handling.id) || entry.required_categories.len() == 0 {
            refused("Kotlin coverage entry target/categories/handling identity is invalid"@)
        } else if entry_ordered(entry).required_categories.len()
            != entry.required_categories.len() {
            refused("Kotlin coverage entry repeats a verification category"@)
        } else {
            entries_from(entries, before.push(entry_ordered(entry)), i + 1)
        }
    }
}

/// The bytes of a coverage document.
pub open spec fn document_bytes(document: KotlinChangeCoverageDocumentModel) -> Seq<u8> {
    canonical_bytes(<KotlinChangeCoverageDocument as Record>::json(document))
}

/// Writes a coverage document.
pub fn write_document(document: &KotlinChangeCoverageDocument) -> (r: Vec<u8>)
    ensures
        r@ == document_bytes(document.deep_view()),
{
    document.to_json().bytes()
}

/// A coverage document in its normal form, from the number of its bytes and the
/// document that they hold, where they hold one.
pub open spec fn document_normalized(
    raw_len: nat,
    document: Option<KotlinChangeCoverageDocumentModel>,
    budgets: ChangeSetBudgetsModel,
) -> Result<KotlinChangeCoverageDocumentModel, ErrorModel> {
    if raw_len > budgets.max_coverage_document_bytes {
        exceeded("Kotlin coverage document exceeds the frozen 2 MiB bound"@)
    } else {
        match document {
            None => refused("Kotlin coverage document is not a closed JSON document"@),
            Some(document) => if document.schema != KOTLIN_CHANGE_COVERAGE_DOCUMENT_SCHEMA@ {
                refused("Kotlin coverage document schema is invalid"@)
            } else if document.entries.len() > budgets.max_coverage_entries {
                exceeded("Kotlin coverage document exceeds the frozen 8,192-entry bound"@)
            } else {
                match entries_from(document.entries, Seq::empty(), 0) {
                    Err(e) => Err(e),
                    Ok(entries) => {
                        let normal = KotlinChangeCoverageDocumentModel {
                            schema: document.schema,
                            entries: sorted::<CoverageDocumentEntry>(entries),
                        };
                        if document_bytes(normal).len() > budgets.max_coverage_document_bytes {
                            exceeded(
                                "canonical Kotlin coverage document exceeds the frozen 2 MiB bound"@,
                            )
                        } else {
                            Ok(normal)
                        }
                    },
                }
            },
        }
    }
}

proof fn same_keys_found(
    seen: Seq<Seq<char>>,
    before: Seq<CoverageDocumentEntryModel>,
    key: Seq<char>,
)
    requires
        forall|k: Seq<char>|
            #![trigger has_key::<String>(seen, k)]
            has_key::<String>(seen, k) <==> has_key::<CoverageDocumentEntry>(before, k),
    ensures
        has_key::<String>(seen, key) == has_key::<CoverageDocumentEntry>(before, key),
{
}

proof fn keys_stay_the_same(
    seen: Seq<Seq<char>>,
    before: Seq<CoverageDocumentEntryModel>,
    x: CoverageDocumentEntryModel,
)
    requires
        is_table::<String>(seen),
        forall|k: Seq<char>|
            #![trigger has_key::<String>(seen, k)]
            has_key::<String>(seen, k) <==> has_key::<CoverageDocumentEntry>(before, k),
    ensures
        forall|k: Seq<char>|
            #![trigger has_key::<String>(crate::table::entered::<String>(seen, x.target_id), k)]
            has_key::<String>(crate::table::entered::<String>(seen, x.target_id), k) <==> has_key::<
                CoverageDocumentEntry,
            >(before.push(x), k),
{
    let next = crate::table::entered::<String>(seen, x.target_id);
    let more = before.push(x);
    crate::table::entered_keeps_table::<String>(seen, x.target_id);
    assert forall|k: Seq<char>|
        #![trigger has_key::<String>(next, k)]
        has_key::<String>(next, k) <==> has_key::<CoverageDocumentEntry>(more, k) by {
        if has_key::<String>(next, k) {
            let i = choose|i: int| 0 <= i < next.len() && String::key(#[trigger] next[i]) == k;
            if next[i] == x.target_id {
                assert(CoverageDocumentEntry::key(more[before.len() as int]) == k);
            } else {
                assert(seen.contains(next[i]));
                let j = choose|j: int| 0 <= j < seen.len() && seen[j] == next[i];
                assert(String::key(seen[j]) == k);
                assert(has_key::<String>(seen, k));
                let q = choose|q: int|
                    0 <= q < before.len() && CoverageDocumentEntry::key(#[trigger] before[q]) == k;
                assert(CoverageDocumentEntry::key(more[q]) == k);
            }
        }
        if has_key::<CoverageDocumentEntry>(more, k) {
            let q = choose|q: int|
                0 <= q < more.len() && CoverageDocumentEntry::key(#[trigger] more[q]) == k;
            if q < before.len() {
                assert(CoverageDocumentEntry::key(before[q]) == k);
                assert(has_key::<CoverageDocumentEntry>(before, k));
                assert(has_key::<String>(seen, k));
                let j = choose|j: int| 0 <= j < seen.len() && String::key(#[trigger] seen[j]) == k;
                assert(seen.contains(seen[j]));
                assert(next.contains(seen[j]));
                let i = choose|i: int| 0 <= i < next.len() && next[i] == seen[j];
                assert(String::key(next[i]) == k);
            }
        }
    }
}

fn order_entries(entries: &Vec<CoverageDocumentEntry>) -> (r: Result<
    Vec<CoverageDocumentEntry>,
    ClewError,
>)
    ensures
        outcome(r) == entries_from(entries.deep_view(), Seq::empty(), 0),
{
    let ghost m = entries.deep_view();
    let mut seen: Vec<String> = Vec::new();
    let mut done: Vec<CoverageDocumentEntry> = Vec::new();
    let mut i: usize = 0;
    proof {
        assert(done.deep_view() =~= Seq::empty());
        assert(seen.deep_view() =~= Seq::empty());
    }
    while i < entries.len()
        invariant
            i <= entries.len(),
            m == entries.deep_view(),
            is_table::<String>(seen.deep_view()),
            forall|k: Seq<char>|
                #![trigger has_key::<String>(seen.deep_view(), k)]
                has_key::<String>(seen.deep_view(), k) <==> has_key::<CoverageDocumentEntry>(
                    done.deep_view(),
                    k,
                ),
            entries_from(m, Seq::empty(), 0) == entries_from(m, done.deep_view(), i as int),
        decreases entries.len() - i,
    {
        assert(m[i as int] == entries@[i as int].deep_view());
        let entry = &entries[i];
        let ghost before = done.deep_view();
        let ghost known = seen.deep_view();
        let fresh = enter_new(&mut seen, entry.target_id.clone());
        proof {
            same_keys_found(known, before, entry.target_id@);
        }
        if !sha256_digest(entry.target_id.as_str()) || !fresh || !safe_tracking_id(
            entry.handling.id.as_str(),
        ) || entry.required_categories.len() == 0 {
            return Err(
                invalid("Kotlin coverage entry target/categories/handling identity is invalid"),
            );
        }
        let categories = order::table_of(&entry.required_categories);
        if categories.len() != entry.required_categories.len() {
            return Err(invalid("Kotlin coverage entry repeats a verification category"));
        }
        let ordered = CoverageDocumentEntry {
            target_id: entry.target_id.clone(),
            required_categories: categories,
            handling: entry.handling.copied(),
        };
        let ghost added = ordered.deep_view();
        done.push(ordered);
        proof {
            assert(done.deep_view() =~= before.push(added));
            keys_stay_the_same(known, before, added);
            assert(added.target_id == entry.target_id@);
            assert(seen.deep_view() == crate::table::entered::<String>(known, added.target_id));
            assert forall|k: Seq<char>|
                #![trigger has_key::<String>(seen.deep_view(), k)]
                has_key::<String>(seen.deep_view(), k) <==> has_key::<CoverageDocumentEntry>(
                    done.deep_view(),
                    k,
                ) by {
                assert(has_key::<String>(crate::table::entered::<String>(known, added.target_id), k)
                    == has_key::<CoverageDocumentEntry>(before.push(added), k));
            }
        }
        i = i + 1;
    }
    Ok(done)
}

/// Normalizes a coverage document, given its bytes and the document that they hold,
/// where they hold one.
pub fn normalize_coverage_document(
    raw: &Vec<u8>,
    document: &Option<KotlinChangeCoverageDocument>,
    budgets: &ChangeSetBudgets,
) -> (r: Result<(KotlinChangeCoverageDocument, Vec<u8>), ClewError>)
    ensures
        match document_normalized(raw@.len(), document.deep_view(), budgets.deep_view()) {
            Ok(normal) => r is Ok && r->Ok_0.0.deep_view() == normal && r->Ok_0.1@
                == document_bytes(normal),
            Err(e) => r is Err && r->Err_0.deep_view() == e,
        },
{
    enforce_at_most(
        raw.len(),
        budgets.max_coverage_document_bytes,
        "Kotlin coverage document exceeds the frozen 2 MiB bound",
    )?;
    let document = match document {
        Some(document) => document,
        None => {
            return Err(invalid("Kotlin coverage document is not a closed JSON document"));
        },
    };
    if !same_text(document.schema.as_str(), KOTLIN_CHANGE_COVERAGE_DOCUMENT_SCHEMA) {
        return Err(invalid("Kotlin coverage document schema is invalid"));
    }
    if document.entries.len() > budgets.max_coverage_entries {
        return Err(budget("Kotlin coverage document exceeds the frozen 8,192-entry bound"));
    }
    let entries = order_entries(&document.entries)?;
    let normal = KotlinChangeCoverageDocument {
        schema: document.schema.clone(),
        entries: sort(&entries),
    };
    let bytes = normal.to_json().bytes();
    enforce_at_most(
        bytes.len(),
        budgets.max_coverage_document_bytes,
        "canonical Kotlin coverage document exceeds the frozen 2 MiB bound",
    )?;
    Ok((normal, bytes))
}

/// The outcome for the entries of a coverage document from one on: each is for a
/// target, with exactly the categories of the target.
pub open spec fn entries_match(
    targets: Seq<CoverageTargetModel>,
    entries: Seq<CoverageDocumentEntryModel>,
    i: int,
) -> Result<(), ErrorModel>
    decreases entries.len() - i,
{
    if i < 0 || i >= entries.len() {
        Ok(())
    } else {
        match record_at::<CoverageTarget>(
            last_table::<CoverageTarget>(targets),
            entries[i].target_id,
        ) {
            None => refused("Kotlin coverage document contains an unknown or stale target"@),
            Some(target) => if entries[i].required_categories != target.required_categories {
                refused(
                    "Kotlin coverage entry verification categories do not exactly match the target"@,
                )
            } else {
                entries_match(targets, entries, i + 1)
            },
        }
    }
}

/// Whether and how a target is covered.
pub open spec fn row_of(
    target: CoverageTargetModel,
    entries: Seq<CoverageDocumentEntryModel>,
) -> CoverageValidationRowModel {
    let entry = record_at::<CoverageDocumentEntry>(
        last_table::<CoverageDocumentEntry>(entries),
        target.target_id,
    );
    CoverageValidationRowModel {
        target_id: target.target_id,
        target_kind: target.target_kind,
        required_categories: target.required_categories,
        covered: entry is Some,
        handling: match entry {
            Some(entry) => Some(entry.handling),
            None => None,
        },
    }
}

/// Whether and how each target is covered, where every entry is for a target.
pub open spec fn coverage_validated(
    targets: Seq<CoverageTargetModel>,
    document: KotlinChangeCoverageDocumentModel,
) -> Result<Seq<CoverageValidationRowModel>, ErrorModel> {
    match entries_match(targets, document.entries, 0) {
        Err(e) => Err(e),
        Ok(_) => Ok(Seq::new(targets.len(), |i: int| row_of(targets[i], document.entries))),
    }
}

fn match_entries(targets: &Vec<CoverageTarget>, entries: &Vec<CoverageDocumentEntry>) -> (r: Result<
    (),
    ClewError,
>)
    ensures
        outcome(r) == entries_match(targets.deep_view(), entries.deep_view(), 0),
{
    let by_id = latest_table_of(targets);
    let ghost t = targets.deep_view();
    let ghost m = entries.deep_view();
    let mut i: usize = 0;
    while i < entries.len()
        invariant
            i <= entries.len(),
            m == entries.deep_view(),
            t == targets.deep_view(),
            by_id.deep_view() == last_table::<CoverageTarget>(t),
            entries_match(t, m, 0) == entries_match(t, m, i as int),
        decreases entries.len() - i,
    {
        assert(m[i as int] == entries@[i as int].deep_view());
        match find_record(&by_id, entries[i].target_id.as_str()) {
            None => {
                return Err(
                    invalid("Kotlin coverage document contains an unknown or stale target"),
                );
            },
            Some(target) => {
                if !entries[i].required_categories.same_as(&target.required_categories) {
                    return Err(
                        invalid(
                            "Kotlin coverage entry verification categories do not exactly match the target",
                        ),
                    );
                }
            },
        }
        i = i + 1;
    }
    Ok(())
}

/// Validates a coverage document against the targets.
pub fn validate_coverage(
    targets: &Vec<CoverageTarget>,
    document: &KotlinChangeCoverageDocument,
) -> (r: Result<Vec<CoverageValidationRow>, ClewError>)
    ensures
        outcome(r) == coverage_validated(targets.deep_view(), document.deep_view()),
{
    match_entries(targets, &document.entries)?;
    let by_id = latest_table_of(&document.entries);
    let ghost t = targets.deep_view();
    let ghost e = document.entries.deep_view();
    let mut rows: Vec<CoverageValidationRow> = Vec::new();
    let mut i: usize = 0;
    while i < targets.len()
        invariant
            i <= targets.len(),
            t == targets.deep_view(),
            by_id.deep_view() == last_table::<CoverageDocumentEntry>(e),
            rows@.len() == i,
            forall|k: int| 0 <= k < i ==> (#[trigger] rows@[k]).deep_view() == row_of(t[k], e),
        decreases targets.len() - i,
    {
        assert(t[i as int] == targets@[i as int].deep_view());
        let target = &targets[i];
        let handling: Option<CoverageHandling> = match find_record(
            &by_id,
            target.target_id.as_str(),
        ) {
            Some(entry) => Some(entry.handling.copied()),
            None => None,
        };
        rows.push(
            CoverageValidationRow {
                target_id: target.target_id.clone(),
                target_kind: target.target_kind,
                required_categories: target.required_categories.copied(),
                covered: handling.is_some(),
                handling,
            },
        );
        i = i + 1;
    }
    assert(rows.deep_view() =~= Seq::new(
        t.len(),
        |i: int| row_of(t[i], document.deep_view().entries),
    ));
    Ok(rows)
}

/// What the closure of a change set is refused with.
pub open spec fn change_closure_texts() -> ClosureTexts {
    ClosureTexts {
        invalid: "Kotlin change-set closure contains an invalid CAS reference"@,
        conflict: "Kotlin change-set closure repeats a digest with different authority"@,
        unrepresentable: "Kotlin change-set retained size is not representable"@,
        overflow: "Kotlin change-set retained size overflowed"@,
        exceeded: "Kotlin change-set proof closure exceeds the frozen 64 MiB bound"@,
    }
}

/// Closes some references within a number of bytes.
pub fn canonical_closure(references: &Vec<CasObject>, max_bytes: usize) -> (r: Result<
    (Vec<CasObject>, usize),
    ClewError,
>)
    ensures
        match closed(references.deep_view(), max_bytes, change_closure_texts()) {
            Ok((closure, bytes)) => r is Ok && r->Ok_0.0.deep_view() == closure && r->Ok_0.1
                == bytes,
            Err(e) => r is Err && r->Err_0.deep_view() == e,
        },
{
    close(
        references,
        max_bytes,
        &ClosureMessages {
            invalid: "Kotlin change-set closure contains an invalid CAS reference",
            conflict: "Kotlin change-set closure repeats a digest with different authority",
            unrepresentable: "Kotlin change-set retained size is not representable",
            overflow: "Kotlin change-set retained size overflowed",
            exceeded: "Kotlin change-set proof closure exceeds the frozen 64 MiB bound",
        },
    )
}

/// What a change set rests on.
pub open spec fn references_of(
    before: VerifiedChangeSideModel,
    after: VerifiedChangeSideModel,
    document_ref: CasObjectModel,
    evidence_ref: CasObjectModel,
) -> Seq<CasObjectModel> {
    before.fact_set.authority.direct_cas_closure + before.impact.authority.direct_cas_closure
        + after.fact_set.authority.direct_cas_closure + after.impact.authority.direct_cas_closure
        + seq![document_ref, evidence_ref]
}

/// The closure of a change set.
pub open spec fn change_closed(
    before: VerifiedChangeSideModel,
    after: VerifiedChangeSideModel,
    document_ref: CasObjectModel,
    evidence_ref: CasObjectModel,
    budgets: ChangeSetBudgetsModel,
) -> Result<(Seq<CasObjectModel>, usize), ErrorModel> {
    match exactly(
        2,
        budgets.max_derived_cas_objects as nat,
        "Kotlin change-set publication must contain exactly two new CAS objects"@,
    ) {
        Err(e) => Err(e),
        Ok(_) => closed(
            references_of(before, after, document_ref, evidence_ref),
            budgets.max_retained_closure_bytes,
            change_closure_texts(),
        ),
    }
}

fn extend(references: &mut Vec<CasObject>, more: &Vec<CasObject>)
    ensures
        final(references).deep_view() == old(references).deep_view() + more.deep_view(),
{
    let ghost start = references.deep_view();
    let ghost m = more.deep_view();
    let mut copied = more.copied();
    references.append(&mut copied);
    assert(references.deep_view() =~= start + m);
}

fn direct_closure(
    before: &VerifiedChangeSide<'_>,
    after: &VerifiedChangeSide<'_>,
    document_ref: &CasObject,
    evidence_ref: &CasObject,
    budgets: &ChangeSetBudgets,
) -> (r: Result<(Vec<CasObject>, usize), ClewError>)
    ensures
        match change_closed(
            before.deep_view(),
            after.deep_view(),
            document_ref.deep_view(),
            evidence_ref.deep_view(),
            budgets.deep_view(),
        ) {
            Ok((closure, bytes)) => r is Ok && r->Ok_0.0.deep_view() == closure && r->Ok_0.1
                == bytes,
            Err(e) => r is Err && r->Err_0.deep_view() == e,
        },
{
    let added = vec![document_ref.copied(), evidence_ref.copied()];
    assert(added.deep_view() =~= seq![document_ref.deep_view(), evidence_ref.deep_view()]);
    enforce_exact(
        added.len(),
        budgets.max_derived_cas_objects,
        "Kotlin change-set publication must contain exactly two new CAS objects",
    )?;
    let mut references: Vec<CasObject> = Vec::new();
    assert(references.deep_view() =~= Seq::empty());
    extend(&mut references, &before.fact_set.authority.direct_cas_closure);
    assert(references.deep_view() =~= before.deep_view().fact_set.authority.direct_cas_closure);
    extend(&mut references, &before.impact.authority.direct_cas_closure);
    extend(&mut references, &after.fact_set.authority.direct_cas_closure);
    extend(&mut references, &after.impact.authority.direct_cas_closure);
    extend(&mut references, &added);
    canonical_closure(&references, budgets.max_retained_closure_bytes)
}

/// The outcome for the members of a correspondence from one on: each is named
/// safely, and none twice.
pub open spec fn mappings_checked(correspondence: Seq<MemberCorrespondenceModel>, i: int) -> Result<
    (),
    ErrorModel,
>
    decreases correspondence.len() - i,
{
    if i < 0 || i >= correspondence.len() {
        Ok(())
    } else {
        let m = correspondence[i];
        if !is_safe_alias(m.before_member_alias) || !is_safe_alias(m.after_member_alias) || (exists|
            k: int,
        |
            0 <= k < i && (#[trigger] correspondence[k]).before_member_alias
                == m.before_member_alias) || (exists|k: int|
            0 <= k < i && (#[trigger] correspondence[k]).after_member_alias
                == m.after_member_alias) {
            refused("member correspondence must be a sorted unique bijection"@)
        } else {
            mappings_checked(correspondence, i + 1)
        }
    }
}

/// Whether the members of a correspondence, before the change or after it, are the
/// two of a pair.
pub open spec fn covers_pair(aliases: Seq<Seq<char>>, first: Seq<char>, second: Seq<char>) -> bool {
    aliases.contains(first) && aliases.contains(second) && forall|i: int|
        0 <= i < aliases.len() ==> (#[trigger] aliases[i] == first || aliases[i] == second)
}

/// The members of a correspondence before the change.
pub open spec fn aliases_before(correspondence: Seq<MemberCorrespondenceModel>) -> Seq<Seq<char>> {
    Seq::new(correspondence.len(), |i: int| correspondence[i].before_member_alias)
}

/// The members of a correspondence after the change.
pub open spec fn aliases_after(correspondence: Seq<MemberCorrespondenceModel>) -> Seq<Seq<char>> {
    Seq::new(correspondence.len(), |i: int| correspondence[i].after_member_alias)
}

/// A correspondence in order: a bijection between the members of the two pairs.
pub open spec fn correspondence_normalized(
    before: VerifiedChangeSideModel,
    after: VerifiedChangeSideModel,
    correspondence: Seq<MemberCorrespondenceModel>,
    budgets: ChangeSetBudgetsModel,
) -> Result<Seq<MemberCorrespondenceModel>, ErrorModel> {
    let b = before.impact.authority.pair;
    let a = after.impact.authority.pair;
    match exactly(
        correspondence.len(),
        budgets.max_member_correspondences as nat,
        "member correspondence must contain exactly the two impact-pair members"@,
    ) {
        Err(e) => Err(e),
        Ok(_) => if b.provider_member == b.consumer_member || a.provider_member
            == a.consumer_member {
            refused("member correspondence must be a total mapping of both impact pairs"@)
        } else {
            let normal = order::sorted::<MemberCorrespondence>(correspondence);
            match mappings_checked(normal, 0) {
                Err(e) => Err(e),
                Ok(_) => if !covers_pair(
                    aliases_before(normal),
                    b.provider_member,
                    b.consumer_member,
                ) || !covers_pair(aliases_after(normal), a.provider_member, a.consumer_member) {
                    refused("member correspondence omits or invents a compared pair member"@)
                } else {
                    Ok(normal)
                },
            }
        },
    }
}

fn check_mappings(correspondence: &Vec<MemberCorrespondence>) -> (r: Result<(), ClewError>)
    ensures
        outcome(r) == mappings_checked(correspondence.deep_view(), 0),
{
    let ghost m = correspondence.deep_view();
    let mut i: usize = 0;
    while i < correspondence.len()
        invariant
            i <= correspondence.len(),
            m == correspondence.deep_view(),
            mappings_checked(m, 0) == mappings_checked(m, i as int),
        decreases correspondence.len() - i,
    {
        assert(m[i as int] == correspondence@[i as int].deep_view());
        let mapping = &correspondence[i];
        let mut k: usize = 0;
        let mut repeated = false;
        while k < i
            invariant
                k <= i < correspondence.len(),
                m == correspondence.deep_view(),
                mapping.deep_view() == m[i as int],
                repeated == (exists|j: int|
                    0 <= j < k && ((#[trigger] m[j]).before_member_alias
                        == m[i as int].before_member_alias || m[j].after_member_alias
                        == m[i as int].after_member_alias)),
            decreases i - k,
        {
            assert(m[k as int] == correspondence@[k as int].deep_view());
            if correspondence[k].before_member_alias.same_as(&mapping.before_member_alias)
                || correspondence[k].after_member_alias.same_as(&mapping.after_member_alias) {
                repeated = true;
            }
            k = k + 1;
        }
        if !safe_alias(mapping.before_member_alias.as_str()) || !safe_alias(
            mapping.after_member_alias.as_str(),
        ) || repeated {
            return Err(invalid("member correspondence must be a sorted unique bijection"));
        }
        i = i + 1;
    }
    Ok(())
}

fn pair_covered(aliases: &Vec<String>, first: &String, second: &String) -> (r: bool)
    ensures
        r == covers_pair(aliases.deep_view(), first@, second@),
{
    let ghost m = aliases.deep_view();
    let mut has_first = false;
    let mut has_second = false;
    let mut i: usize = 0;
    while i < aliases.len()
        invariant
            i <= aliases.len(),
            m == aliases.deep_view(),
            has_first == (exists|k: int| 0 <= k < i && #[trigger] m[k] == first@),
            has_second == (exists|k: int| 0 <= k < i && #[trigger] m[k] == second@),
            forall|k: int| 0 <= k < i ==> (#[trigger] m[k] == first@ || m[k] == second@),
        decreases aliases.len() - i,
    {
        assert(m[i as int] == aliases@[i as int]@);
        let is_first = aliases[i].same_as(first);
        let is_second = aliases[i].same_as(second);
        if !is_first && !is_second {
            return false;
        }
        if is_first {
            has_first = true;
        }
        if is_second {
            has_second = true;
        }
        i = i + 1;
    }
    has_first && has_second
}

fn collect_aliases(correspondence: &Vec<MemberCorrespondence>) -> (r: (Vec<String>, Vec<String>))
    ensures
        r.0.deep_view() == aliases_before(correspondence.deep_view()),
        r.1.deep_view() == aliases_after(correspondence.deep_view()),
{
    let ghost m = correspondence.deep_view();
    let mut before: Vec<String> = Vec::new();
    let mut after: Vec<String> = Vec::new();
    let mut i: usize = 0;
    while i < correspondence.len()
        invariant
            i <= correspondence.len(),
            m == correspondence.deep_view(),
            before@.len() == i,
            after@.len() == i,
            forall|k: int| 0 <= k < i ==> (#[trigger] before@[k])@ == m[k].before_member_alias,
            forall|k: int| 0 <= k < i ==> (#[trigger] after@[k])@ == m[k].after_member_alias,
        decreases correspondence.len() - i,
    {
        assert(m[i as int] == correspondence@[i as int].deep_view());
        before.push(correspondence[i].before_member_alias.clone());
        after.push(correspondence[i].after_member_alias.clone());
        i = i + 1;
    }
    assert(before.deep_view() =~= aliases_before(m));
    assert(after.deep_view() =~= aliases_after(m));
    (before, after)
}

fn normalize_correspondence(
    before: &VerifiedChangeSide<'_>,
    after: &VerifiedChangeSide<'_>,
    correspondence: &Vec<MemberCorrespondence>,
    budgets: &ChangeSetBudgets,
) -> (r: Result<Vec<MemberCorrespondence>, ClewError>)
    ensures
        outcome(r) == correspondence_normalized(
            before.deep_view(),
            after.deep_view(),
            correspondence.deep_view(),
            budgets.deep_view(),
        ),
{
    let b = &before.impact.authority.pair;
    let a = &after.impact.authority.pair;
    enforce_exact(
        correspondence.len(),
        budgets.max_member_correspondences,
        "member correspondence must contain exactly the two impact-pair members",
    )?;
    if b.provider_member.same_as(&b.consumer_member) || a.provider_member.same_as(
        &a.consumer_member,
    ) {
        return Err(invalid("member correspondence must be a total mapping of both impact pairs"));
    }
    let normal = order::sort(correspondence);
    check_mappings(&normal)?;
    let (before_aliases, after_aliases) = collect_aliases(&normal);
    if !pair_covered(&before_aliases, &b.provider_member, &b.consumer_member) || !pair_covered(
        &after_aliases,
        &a.provider_member,
        &a.consumer_member,
    ) {
        return Err(invalid("member correspondence omits or invents a compared pair member"));
    }
    Ok(normal)
}

impl Keyed for MemberCorrespondence {
    open spec fn key(v: MemberCorrespondenceModel) -> Seq<char> {
        v.before_member_alias
    }

    fn key_text(&self) -> (r: &String) {
        &self.before_member_alias
    }
}

/// What one side of a change is bound to.
pub open spec fn side_bound(side: VerifiedChangeSideModel) -> Result<
    ChangeSideAuthorityModel,
    ErrorModel,
> {
    let impact = side.impact.authority;
    match impact.request.subject {
        KotlinImpactSubjectModel::CallableFamily { callable_id } => {
            let selection = side.impact.evidence.selection;
            if selection.subject != impact.request.subject || selection.relationship_authority
                != impact.relationship_authority {
                corrupted("Kotlin impact selection authority was substituted"@)
            } else {
                Ok(
                    ChangeSideAuthorityModel {
                        thread_id: side.thread.thread_id,
                        thread_authority_digest: side.thread.authority_digest,
                        thread_semantic_digest: side.thread.semantic_digest,
                        fact_set_id: side.fact_set.fact_set_id,
                        fact_set_authority_digest: side.fact_set.authority.authority_digest,
                        fact_set_binding_digest: side.fact_set.authority.binding_digest,
                        profile_digest: side.fact_set.authority.profile_digest,
                        impact_id: "thread-impact:"@ + impact.authority_digest,
                        impact_authority_digest: impact.authority_digest,
                        impact_binding_digest: impact.binding_digest,
                        pair_id: impact.pair.pair_id,
                        callable_id,
                        relationship_authority: impact.relationship_authority,
                    },
                )
            }
        },
        _ => refused("S3K v1 accepts only CALLABLE_FAMILY impact subjects"@),
    }
}

fn side_authority(side: &VerifiedChangeSide<'_>) -> (r: Result<ChangeSideAuthority, ClewError>)
    ensures
        outcome(r) == side_bound(side.deep_view()),
{
    let impact = &side.impact.authority;
    let callable_id = match &impact.request.subject {
        KotlinImpactSubject::CallableFamily { callable_id } => callable_id.clone(),
        _ => {
            return Err(invalid("S3K v1 accepts only CALLABLE_FAMILY impact subjects"));
        },
    };
    let selection = &side.impact.evidence.selection;
    if !selection.subject.same_as(&impact.request.subject) || selection.relationship_authority
        != impact.relationship_authority {
        return Err(corrupt("Kotlin impact selection authority was substituted"));
    }
    Ok(
        ChangeSideAuthority {
            thread_id: side.thread.thread_id.clone(),
            thread_authority_digest: side.thread.authority_digest.clone(),
            thread_semantic_digest: side.thread.semantic_digest.clone(),
            fact_set_id: side.fact_set.fact_set_id.clone(),
            fact_set_authority_digest: side.fact_set.authority.authority_digest.clone(),
            fact_set_binding_digest: side.fact_set.authority.binding_digest.clone(),
            profile_digest: side.fact_set.authority.profile_digest.clone(),
            impact_id: joined("thread-impact:", impact.authority_digest.as_str()),
            impact_authority_digest: impact.authority_digest.clone(),
            impact_binding_digest: impact.binding_digest.clone(),
            pair_id: impact.pair.pair_id.clone(),
            callable_id,
            relationship_authority: impact.relationship_authority,
        },
    )
}

/// Whether a member of a fact set is that of a thread.
pub open spec fn is_fact_of_member(fact: CallableMemberBindingModel, member: ThreadMemberBindingModel) -> bool {
    fact.service_alias == member.service_alias && fact.session_id == member.session.session_id
        && fact.session_authority_digest == member.session.authority_digest && fact.base_revision
        == member.session.base_revision
}

fn fact_of_member(fact: &CallableMemberBinding, member: &ThreadMemberBinding) -> (r: bool)
    ensures
        r == is_fact_of_member(fact.deep_view(), member.deep_view()),
{
    fact.service_alias.same_as(&member.service_alias) && fact.session_id.same_as(
        &member.session.session_id,
    ) && fact.session_authority_digest.same_as(&member.session.authority_digest)
        && fact.base_revision.same_as(&member.session.base_revision)
}

/// Whether a member is the same before and after a change: its service, repository,
/// language, compilations and runtime.
pub open spec fn is_same_member(
    before: ThreadMemberBindingModel,
    after: ThreadMemberBindingModel,
) -> bool {
    before.service_alias == after.service_alias && before.session.repository_key
        == after.session.repository_key && before.session.language == SessionLanguage::Kotlin
        && after.session.language == SessionLanguage::Kotlin && before.session.compilations
        == after.session.compilations && before.session.runtime_key == after.session.runtime_key
        && before.session.runtime_mode == after.session.runtime_mode
}

fn same_member(before: &ThreadMemberBinding, after: &ThreadMemberBinding) -> (r: bool)
    ensures
        r == is_same_member(before.deep_view(), after.deep_view()),
{
    before.service_alias.same_as(&after.service_alias) && before.session.repository_key.same_as(
        &after.session.repository_key,
    ) && before.session.language == SessionLanguage::Kotlin && after.session.language
        == SessionLanguage::Kotlin && before.session.compilations.same_as(
        &after.session.compilations,
    ) && before.session.runtime_key.same_as(&after.session.runtime_key)
        && before.session.runtime_mode == after.session.runtime_mode
}

/// Whether a compilation is made by the same compiler before and after a change.
pub open spec fn is_same_compiler(
    before: CallableCompilationBindingModel,
    after: CallableCompilationBindingModel,
) -> bool {
    before.compilation_id == after.compilation_id && before.semantic_authority
        == after.semantic_authority && before.extractor_id == after.extractor_id
        && before.adapter_digest == after.adapter_digest && before.runtime_digest
        == after.runtime_digest
}

/// Whether the compilations are made by the same compilers before and after a
/// change.
pub open spec fn are_same_compilers(
    before: Seq<CallableCompilationBindingModel>,
    after: Seq<CallableCompilationBindingModel>,
) -> bool {
    before.len() == after.len() && forall|i: int|
        0 <= i < before.len() ==> is_same_compiler(#[trigger] before[i], after[i])
}

fn same_compilers(
    before: &Vec<CallableCompilationBinding>,
    after: &Vec<CallableCompilationBinding>,
) -> (r: bool)
    ensures
        r == are_same_compilers(before.deep_view(), after.deep_view()),
{
    let ghost b = before.deep_view();
    let ghost a = after.deep_view();
    if before.len() != after.len() {
        return false;
    }
    let mut i: usize = 0;
    while i < before.len()
        invariant
            i <= before.len(),
            before@.len() == after@.len(),
            b == before.deep_view(),
            a == after.deep_view(),
            forall|k: int| 0 <= k < i ==> is_same_compiler(#[trigger] b[k], a[k]),
        decreases before.len() - i,
    {
        assert(b[i as int] == before@[i as int].deep_view());
        assert(a[i as int] == after@[i as int].deep_view());
        let x = &before[i];
        let y = &after[i];
        if !x.compilation_id.same_as(&y.compilation_id) || !x.semantic_authority.same_as(
            &y.semantic_authority,
        ) || !x.extractor_id.same_as(&y.extractor_id) || !x.adapter_digest.same_as(
            &y.adapter_digest,
        ) || !x.runtime_digest.same_as(&y.runtime_digest) {
            return false;
        }
        i = i + 1;
    }
    true
}

/// A compilation before and after a change.
pub open spec fn compilation_combined(
    before: CallableCompilationBindingModel,
    after: CallableCompilationBindingModel,
) -> ChangeCompilationAuthorityModel {
    ChangeCompilationAuthorityModel {
        compilation_id: before.compilation_id,
        semantic_authority: before.semantic_authority,
        extractor_id: before.extractor_id,
        adapter_digest: before.adapter_digest,
        runtime_digest: before.runtime_digest,
        before_descriptor_coverage: before.descriptor_coverage,
        after_descriptor_coverage: after.descriptor_coverage,
        before_relation_coverage: before.relation_coverage,
        after_relation_coverage: after.relation_coverage,
    }
}

/// The compilations before and after a change.
pub open spec fn compilations_combined(
    before: Seq<CallableCompilationBindingModel>,
    after: Seq<CallableCompilationBindingModel>,
) -> Seq<ChangeCompilationAuthorityModel> {
    Seq::new(before.len(), |i: int| compilation_combined(before[i], after[i]))
}

fn combined_compilation_authorities(
    before: &Vec<CallableCompilationBinding>,
    after: &Vec<CallableCompilationBinding>,
) -> (r: Vec<ChangeCompilationAuthority>)
    requires
        before@.len() == after@.len(),
    ensures
        r.deep_view() == compilations_combined(before.deep_view(), after.deep_view()),
{
    let ghost b = before.deep_view();
    let ghost a = after.deep_view();
    let mut combined: Vec<ChangeCompilationAuthority> = Vec::new();
    let mut i: usize = 0;
    while i < before.len()
        invariant
            i <= before.len(),
            before@.len() == after@.len(),
            b == before.deep_view(),
            a == after.deep_view(),
            combined@.len() == i,
            forall|k: int|
                0 <= k < i ==> (#[trigger] combined@[k]).deep_view() == compilation_combined(
                    b[k],
                    a[k],
                ),
        decreases before.len() - i,
    {
        assert(b[i as int] == before@[i as int].deep_view());
        assert(a[i as int] == after@[i as int].deep_view());
        let x = &before[i];
        let y = &after[i];
        combined.push(
            ChangeCompilationAuthority {
                compilation_id: x.compilation_id.clone(),
                semantic_authority: x.semantic_authority.clone(),
                extractor_id: x.extractor_id.clone(),
                adapter_digest: x.adapter_digest.clone(),
                runtime_digest: x.runtime_digest.clone(),
                before_descriptor_coverage: x.descriptor_coverage,
                after_descriptor_coverage: y.descriptor_coverage,
                before_relation_coverage: x.relation_coverage,
                after_relation_coverage: y.relation_coverage,
            },
        );
        i = i + 1;
    }
    assert(combined.deep_view() =~= compilations_combined(b, a));
    combined
}

/// The runtime of a member before and after a change, where nothing but its code
/// changed.
pub open spec fn member_bound(
    before: VerifiedChangeSideModel,
    after: VerifiedChangeSideModel,
    mapping: MemberCorrespondenceModel,
) -> Result<ChangeRuntimeAuthorityModel, ErrorModel> {
    match record_at::<ThreadMemberBinding>(before.thread.members, mapping.before_member_alias) {
        None => refused("member correspondence references an unknown thread member"@),
        Some(bm) => match record_at::<ThreadMemberBinding>(
            after.thread.members,
            mapping.after_member_alias,
        ) {
            None => refused("member correspondence references an unknown thread member"@),
            Some(am) => match record_at::<CallableMemberBinding>(
                before.fact_set.authority.members,
                mapping.before_member_alias,
            ) {
                None => corrupted("fact set omits a declared thread member"@),
                Some(bf) => match record_at::<CallableMemberBinding>(
                    after.fact_set.authority.members,
                    mapping.after_member_alias,
                ) {
                    None => corrupted("fact set omits a declared thread member"@),
                    Some(af) => if !is_same_member(bm, am) || !is_fact_of_member(bf, bm)
                        || !is_fact_of_member(af, am) || bf.repository_namespace
                        != af.repository_namespace {
                        refused(
                            "member correspondence changes repository/service/language/compilation/runtime authority"@,
                        )
                    } else if !are_same_compilers(bf.compilations, af.compilations) {
                        refused(
                            "member correspondence changes extractor, adapter, or compiler authority"@,
                        )
                    } else {
                        Ok(
                            ChangeRuntimeAuthorityModel {
                                before_member_alias: mapping.before_member_alias,
                                after_member_alias: mapping.after_member_alias,
                                runtime_key: bm.session.runtime_key,
                                runtime_mode: bm.session.runtime_mode,
                                compilation_authorities: compilations_combined(
                                    bf.compilations,
                                    af.compilations,
                                ),
                            },
                        )
                    },
                },
            },
        },
    }
}

/// The runtimes of the members from one on.
pub open spec fn members_bound(
    authorities: Seq<ChangeRuntimeAuthorityModel>,
    before: VerifiedChangeSideModel,
    after: VerifiedChangeSideModel,
    correspondence: Seq<MemberCorrespondenceModel>,
    i: int,
) -> Result<Seq<ChangeRuntimeAuthorityModel>, ErrorModel>
    decreases correspondence.len() - i,
{
    if i < 0 || i >= correspondence.len() {
        Ok(authorities)
    } else {
        match member_bound(before, after, correspondence[i]) {
            Err(e) => Err(e),
            Ok(authority) => members_bound(
                authorities.push(authority),
                before,
                after,
                correspondence,
                i + 1,
            ),
        }
    }
}

/// What a member before a change is after it.
pub open spec fn mapped_to(correspondence: Seq<MemberCorrespondenceModel>, alias: Seq<char>) -> Option<
    Seq<char>,
> {
    match record_at::<MemberCorrespondence>(
        last_table::<MemberCorrespondence>(correspondence),
        alias,
    ) {
        Some(mapping) => Some(mapping.after_member_alias),
        None => None,
    }
}

/// The runtimes of the members, where the provider stays the provider and the
/// consumer the consumer.
pub open spec fn authority_validated(
    before: VerifiedChangeSideModel,
    after: VerifiedChangeSideModel,
    correspondence: Seq<MemberCorrespondenceModel>,
) -> Result<Seq<ChangeRuntimeAuthorityModel>, ErrorModel> {
    let b = before.impact.authority.pair;
    let a = after.impact.authority.pair;
    match members_bound(Seq::empty(), before, after, correspondence, 0) {
        Err(e) => Err(e),
        Ok(authorities) => if mapped_to(correspondence, b.provider_member) != Some(
            a.provider_member,
        ) || mapped_to(correspondence, b.consumer_member) != Some(a.consumer_member) {
            refused("member correspondence must preserve provider and consumer roles"@)
        } else {
            Ok(authorities)
        },
    }
}

fn bind_member(
    before: &VerifiedChangeSide<'_>,
    after: &VerifiedChangeSide<'_>,
    mapping: &MemberCorrespondence,
) -> (r: Result<ChangeRuntimeAuthority, ClewError>)
    ensures
        outcome(r) == member_bound(before.deep_view(), after.deep_view(), mapping.deep_view()),
{
    let bm = match find_record(&before.thread.members, mapping.before_member_alias.as_str()) {
        Some(member) => member,
        None => {
            return Err(invalid("member correspondence references an unknown thread member"));
        },
    };
    let am = match find_record(&after.thread.members, mapping.after_member_alias.as_str()) {
        Some(member) => member,
        None => {
            return Err(invalid("member correspondence references an unknown thread member"));
        },
    };
    let bf = match find_record(
        &before.fact_set.authority.members,
        mapping.before_member_alias.as_str(),
    ) {
        Some(member) => member,
        None => {
            return Err(corrupt("fact set omits a declared thread member"));
        },
    };
    let af = match find_record(
        &after.fact_set.authority.members,
        mapping.after_member_alias.as_str(),
    ) {
        Some(member) => member,
        None => {
            return Err(corrupt("fact set omits a declared thread member"));
        },
    };
    if !same_member(bm, am) || !fact_of_member(bf, bm) || !fact_of_member(af, am)
        || !bf.repository_namespace.same_as(&af.repository_namespace) {
        return Err(
            invalid(
                "member correspondence changes repository/service/language/compilation/runtime authority",
            ),
        );
    }
    if !same_compilers(&bf.compilations, &af.compilations) {
        return Err(
            invalid("member correspondence changes extractor, adapter, or compiler authority"),
        );
    }
    Ok(
        ChangeRuntimeAuthority {
            before_member_alias: mapping.before_member_alias.clone(),
            after_member_alias: mapping.after_member_alias.clone(),
            runtime_key: bm.session.runtime_key.clone(),
            runtime_mode: bm.session.runtime_mode,
            compilation_authorities: combined_compilation_authorities(
                &bf.compilations,
                &af.compilations,
            ),
        },
    )
}

fn is_mapped(mappings: &Vec<MemberCorrespondence>, alias: &String, expected: &String) -> (r: bool)
    ensures
        r == (match record_at::<MemberCorrespondence>(mappings.deep_view(), alias@) {
            Some(mapping) => mapping.after_member_alias == expected@,
            None => false,
        }),
{
    match find_record(mappings, alias.as_str()) {
        Some(mapping) => mapping.after_member_alias.same_as(expected),
        None => false,
    }
}

fn validate_member_authority(
    before: &VerifiedChangeSide<'_>,
    after: &VerifiedChangeSide<'_>,
    correspondence: &Vec<MemberCorrespondence>,
) -> (r: Result<Vec<ChangeRuntimeAuthority>, ClewError>)
    ensures
        outcome(r) == authority_validated(
            before.deep_view(),
            after.deep_view(),
            correspondence.deep_view(),
        ),
{
    let ghost b = before.deep_view();
    let ghost a = after.deep_view();
    let ghost m = correspondence.deep_view();
    let mut authorities: Vec<ChangeRuntimeAuthority> = Vec::new();
    let mut i: usize = 0;
    assert(authorities.deep_view() =~= Seq::empty());
    while i < correspondence.len()
        invariant
            i <= correspondence.len(),
            m == correspondence.deep_view(),
            b == before.deep_view(),
            a == after.deep_view(),
            members_bound(Seq::empty(), b, a, m, 0) == members_bound(
                authorities.deep_view(),
                b,
                a,
                m,
                i as int,
            ),
        decreases correspondence.len() - i,
    {
        let ghost now = authorities.deep_view();
        assert(m[i as int] == correspondence@[i as int].deep_view());
        let authority = bind_member(before, after, &correspondence[i])?;
        let ghost added = authority.deep_view();
        authorities.push(authority);
        assert(authorities.deep_view() =~= now.push(added));
        i = i + 1;
    }
    let mappings = latest_table_of(correspondence);
    let bp = &before.impact.authority.pair;
    let ap = &after.impact.authority.pair;
    if !is_mapped(&mappings, &bp.provider_member, &ap.provider_member) || !is_mapped(
        &mappings,
        &bp.consumer_member,
        &ap.consumer_member,
    ) {
        return Err(invalid("member correspondence must preserve provider and consumer roles"));
    }
    Ok(authorities)
}

/// The outcome for the runtime of a validator.
pub open spec fn runtime_checked(validator: ValidatorRuntimeAuthorityModel) -> Result<
    (),
    ErrorModel,
> {
    if is_digest(validator.runtime_key) && is_digest(validator.manifest_digest) {
        Ok(())
    } else {
        refused("validator runtime key and manifest digest must be SHA-256 authorities"@)
    }
}

/// Accepts the runtime of a validator whose key and manifest are SHA-256 digests.
pub fn validate_validator_runtime(validator: &ValidatorRuntimeAuthority) -> (r: Result<
    (),
    ClewError,
>)
    ensures
        outcome(r) == runtime_checked(validator.deep_view()),
{
    if !sha256_digest(validator.runtime_key.as_str()) || !sha256_digest(
        validator.manifest_digest.as_str(),
    ) {
        return Err(
            invalid("validator runtime key and manifest digest must be SHA-256 authorities"),
        );
    }
    Ok(())
}

/// What a change set compares: the two sides, the members and their runtimes.
pub struct ChangeScope {
    pub before: ChangeSideAuthorityModel,
    pub after: ChangeSideAuthorityModel,
    pub correspondence: Seq<MemberCorrespondenceModel>,
    pub runtimes: Seq<ChangeRuntimeAuthorityModel>,
}

/// What a change set compares, where the two sides can be compared.
#[verifier::opaque]
pub open spec fn change_scoped(
    before: VerifiedChangeSideModel,
    after: VerifiedChangeSideModel,
    request: ThreadChangeSetRequestModel,
) -> Result<ChangeScope, ErrorModel> {
    if request.budgets != frozen_budgets() {
        refused("Kotlin change-set budgets differ from the frozen profile"@)
    } else {
        match correspondence_normalized(
            before,
            after,
            request.member_correspondence,
            request.budgets,
        ) {
            Err(e) => Err(e),
            Ok(correspondence) => match side_bound(before) {
                Err(e) => Err(e),
                Ok(b) => match side_bound(after) {
                    Err(e) => Err(e),
                    Ok(a) => if b.callable_id != a.callable_id {
                        refused("before and after impacts must select the same callable family"@)
                    } else if b.relationship_authority != RelationshipAuthority::DeclaredTopology
                        || a.relationship_authority != RelationshipAuthority::DeclaredTopology {
                        refused("S3K v1 requires DECLARED_TOPOLOGY impact authority"@)
                    } else if b.profile_digest != a.profile_digest {
                        refused("before and after fact sets must use the same Kotlin profile"@)
                    } else {
                        match authority_validated(before, after, correspondence) {
                            Err(e) => Err(e),
                            Ok(runtimes) => match runtime_checked(request.validator_runtime) {
                                Err(e) => Err(e),
                                Ok(_) => Ok(
                                    ChangeScope { before: b, after: a, correspondence, runtimes },
                                ),
                            },
                        }
                    },
                },
            },
        }
    }
}

/// What [`ChangeScope`] is the model of.
struct Scope {
    before: ChangeSideAuthority,
    after: ChangeSideAuthority,
    correspondence: Vec<MemberCorrespondence>,
    runtimes: Vec<ChangeRuntimeAuthority>,
}

impl DeepView for Scope {
    type V = ChangeScope;

    closed spec fn deep_view(&self) -> ChangeScope {
        ChangeScope {
            before: self.before.deep_view(),
            after: self.after.deep_view(),
            correspondence: self.correspondence.deep_view(),
            runtimes: self.runtimes.deep_view(),
        }
    }
}

fn scope(
    before: &VerifiedChangeSide<'_>,
    after: &VerifiedChangeSide<'_>,
    request: &ThreadChangeSetRequest,
) -> (r: Result<Scope, ClewError>)
    ensures
        outcome(r) == change_scoped(
            before.deep_view(),
            after.deep_view(),
            request.deep_view(),
        ),
{
    proof {
        reveal(change_scoped);
    }
    request.budgets.validate()?;
    let correspondence = normalize_correspondence(
        before,
        after,
        &request.member_correspondence,
        &request.budgets,
    )?;
    let b = side_authority(before)?;
    let a = side_authority(after)?;
    if !b.callable_id.same_as(&a.callable_id) {
        return Err(invalid("before and after impacts must select the same callable family"));
    }
    if b.relationship_authority != RelationshipAuthority::DeclaredTopology
        || a.relationship_authority != RelationshipAuthority::DeclaredTopology {
        return Err(invalid("S3K v1 requires DECLARED_TOPOLOGY impact authority"));
    }
    if !b.profile_digest.same_as(&a.profile_digest) {
        return Err(invalid("before and after fact sets must use the same Kotlin profile"));
    }
    let runtimes = validate_member_authority(before, after, &correspondence)?;
    validate_validator_runtime(&request.validator_runtime)?;
    Ok(Scope { before: b, after: a, correspondence, runtimes })
}

/// What the digest of a comparison is taken of.
#[verifier::opaque]
pub open spec fn comparison_material(scope: ChangeScope, budgets: ChangeSetBudgetsModel) -> JsonModel {
    JsonModel::object().with(
        "schema"@,
        JsonModel::Str("codeclew-kotlin-change-comparison/1.0"@),
    ).with("before"@, <ChangeSideAuthority as Record>::json(scope.before)).with(
        "after"@,
        <ChangeSideAuthority as Record>::json(scope.after),
    ).with(
        "runtimeAuthorities"@,
        <Vec<ChangeRuntimeAuthority> as Record>::json(scope.runtimes),
    ).with(
        "memberCorrespondence"@,
        <Vec<MemberCorrespondence> as Record>::json(scope.correspondence),
    ).with("rulesDigest"@, JsonModel::Str(frozen_rules_digest())).with(
        "budgets"@,
        <ChangeSetBudgets as Record>::json(budgets),
    )
}

fn comparison_digest(scope: &Scope, budgets: &ChangeSetBudgets) -> (r: String)
    ensures
        r@ == json_digest(comparison_material(scope.deep_view(), budgets.deep_view())),
{
    proof {
        reveal(comparison_material);
    }
    hash(
        &Json::object().with(
            "schema",
            Json::Str("codeclew-kotlin-change-comparison/1.0".to_owned()),
        ).with("before", scope.before.to_json()).with("after", scope.after.to_json()).with(
            "runtimeAuthorities",
            scope.runtimes.to_json(),
        ).with("memberCorrespondence", scope.correspondence.to_json()).with(
            "rulesDigest",
            Json::Str(rules_digest()),
        ).with("budgets", budgets.to_json()),
    )
}

/// What the digest of a validation is taken of.
pub open spec fn validation_material(
    comparison_digest: Seq<char>,
    document_ref: CasObjectModel,
) -> JsonModel {
    JsonModel::object().with(
        "schema"@,
        JsonModel::Str("codeclew-kotlin-change-validation-binding/1.0"@),
    ).with("comparisonDigest"@, JsonModel::Str(comparison_digest)).with(
        "coverageDocumentRef"@,
        <CasObject as Record>::json(document_ref),
    )
}

fn validation_digest(comparison_digest: &String, document_ref: &CasObject) -> (r: String)
    ensures
        r@ == json_digest(validation_material(comparison_digest@, document_ref.deep_view())),
{
    hash(
        &Json::object().with(
            "schema",
            Json::Str("codeclew-kotlin-change-validation-binding/1.0".to_owned()),
        ).with("comparisonDigest", Json::Str(comparison_digest.clone())).with(
            "coverageDocumentRef",
            document_ref.to_json(),
        ),
    )
}

/// The reference to a coverage document.
pub open spec fn document_ref_of(document: KotlinChangeCoverageDocumentModel) -> CasObjectModel {
    reference_to(KOTLIN_CHANGE_COVERAGE_DOCUMENT_SCHEMA@, document_bytes(document))
}

/// The evidence of a change set.
#[verifier::opaque]
pub open spec fn evidence_collected(
    before: VerifiedChangeSideModel,
    after: VerifiedChangeSideModel,
    scope: ChangeScope,
    request: ThreadChangeSetRequestModel,
) -> Result<KotlinChangeCoverageEvidenceModel, ErrorModel> {
    let digest = json_digest(comparison_material(scope, request.budgets));
    match impacts_compared(before, after) {
        Err(e) => Err(e),
        Ok(c) => {
            let observations = order::sorted::<KotlinChangeObservation>(c.observations);
            match at_most(
                observations.len(),
                request.budgets.max_observations as nat,
                "Kotlin change observations exceed the frozen 4,096 bound"@,
            ) {
                Err(e) => Err(e),
                Ok(_) => match obligations_collected(
                    before.impact.evidence.selection.obligations,
                    after.impact.evidence.selection.obligations,
                    c.obligations,
                    request.budgets.max_obligations,
                ) {
                    Err(e) => Err(e),
                    Ok(obligations) => match targets_built(
                        digest,
                        before,
                        scope.correspondence,
                        observations,
                        obligations,
                        request.budgets.max_result_rows,
                    ) {
                        Err(e) => Err(e),
                        Ok(targets) => match document_normalized(
                            request.coverage_document.len(),
                            request.document,
                            request.budgets,
                        ) {
                            Err(e) => Err(e),
                            Ok(document) => match coverage_validated(targets, document) {
                                Err(e) => Err(e),
                                Ok(rows) => Ok(
                                    KotlinChangeCoverageEvidenceModel {
                                        schema: KOTLIN_CHANGE_COVERAGE_EVIDENCE_SCHEMA@,
                                        comparison_digest: digest,
                                        validation_binding_digest: json_digest(
                                            validation_material(digest, document_ref_of(document)),
                                        ),
                                        rules_digest: frozen_rules_digest(),
                                        before: scope.before,
                                        after: scope.after,
                                        runtime_authorities: scope.runtimes,
                                        validator_runtime: request.validator_runtime,
                                        member_correspondence: scope.correspondence,
                                        observations,
                                        obligations,
                                        targets,
                                        coverage_document: document,
                                        validation_rows: rows,
                                    },
                                ),
                            },
                        },
                    },
                },
            }
        },
    }
}

fn collect_evidence(
    before: &VerifiedChangeSide<'_>,
    after: &VerifiedChangeSide<'_>,
    scope: &Scope,
    request: &ThreadChangeSetRequest,
) -> (r: Result<(KotlinChangeCoverageEvidence, Vec<u8>), ClewError>)
    ensures
        match evidence_collected(
            before.deep_view(),
            after.deep_view(),
            scope.deep_view(),
            request.deep_view(),
        ) {
            Ok(evidence) => r is Ok && r->Ok_0.0.deep_view() == evidence && r->Ok_0.1@
                == document_bytes(evidence.coverage_document),
            Err(e) => r is Err && r->Err_0.deep_view() == e,
        },
{
    proof {
        reveal(evidence_collected);
    }
    let digest = comparison_digest(scope, &request.budgets);
    let (unsorted, mut comparison) = compare_impacts(before, after)?;
    let observations = order::sort(&unsorted);
    enforce_at_most(
        observations.len(),
        request.budgets.max_observations,
        "Kotlin change observations exceed the frozen 4,096 bound",
    )?;
    let obligations = collect_obligations(
        &before.impact.evidence.selection.obligations,
        &after.impact.evidence.selection.obligations,
        &mut comparison,
        request.budgets.max_obligations,
    )?;
    let targets = build_targets(
        digest.as_str(),
        before,
        &scope.correspondence,
        &observations,
        &obligations,
        request.budgets.max_result_rows,
    )?;
    let (document, document_bytes) = normalize_coverage_document(
        &request.coverage_document,
        &request.document,
        &request.budgets,
    )?;
    let rows = validate_coverage(&targets, &document)?;
    let document_ref = CasObject::for_bytes(
        KOTLIN_CHANGE_COVERAGE_DOCUMENT_SCHEMA,
        document_bytes.as_slice(),
    );
    let evidence = KotlinChangeCoverageEvidence {
        schema: KOTLIN_CHANGE_COVERAGE_EVIDENCE_SCHEMA.to_owned(),
        validation_binding_digest: validation_digest(&digest, &document_ref),
        comparison_digest: digest,
        rules_digest: rules_digest(),
        before: scope.before.copied(),
        after: scope.after.copied(),
        runtime_authorities: scope.runtimes.copied(),
        validator_runtime: request.validator_runtime.copied(),
        member_correspondence: scope.correspondence.copied(),
        observations,
        obligations,
        targets,
        coverage_document: document,
        validation_rows: rows,
    };
    Ok((evidence, document_bytes))
}

/// The targets of those of the first `n` rows that are not covered.
pub open spec fn missing_targets(
    targets: Seq<CoverageTargetModel>,
    rows: Seq<CoverageValidationRowModel>,
    n: nat,
) -> Seq<CoverageTargetProjectionModel>
    decreases n,
{
    if n == 0 || n > rows.len() || n > targets.len() {
        Seq::empty()
    } else if rows[n - 1].covered {
        missing_targets(targets, rows, (n - 1) as nat)
    } else {
        missing_targets(targets, rows, (n - 1) as nat).push(shown_target(targets[n - 1]))
    }
}

/// The targets of those of the first `n` rows that are covered.
pub open spec fn covered_targets(rows: Seq<CoverageValidationRowModel>, n: nat) -> Seq<Seq<char>>
    decreases n,
{
    if n == 0 || n > rows.len() {
        Seq::empty()
    } else if rows[n - 1].covered {
        covered_targets(rows, (n - 1) as nat).push(rows[n - 1].target_id)
    } else {
        covered_targets(rows, (n - 1) as nat)
    }
}

/// What is shown of a target.
pub open spec fn shown_target(target: CoverageTargetModel) -> CoverageTargetProjectionModel {
    CoverageTargetProjectionModel {
        target_id: target.target_id,
        target_kind: target.target_kind,
        required_categories: target.required_categories,
        subject: target.subject,
    }
}

fn target_projection(target: &CoverageTarget) -> (r: CoverageTargetProjection)
    ensures
        r.deep_view() == shown_target(target.deep_view()),
{
    CoverageTargetProjection {
        target_id: target.target_id.clone(),
        target_kind: target.target_kind,
        required_categories: target.required_categories.copied(),
        subject: target.subject.copied(),
    }
}

fn collect_missing(targets: &Vec<CoverageTarget>, rows: &Vec<CoverageValidationRow>) -> (r: Vec<
    CoverageTargetProjection,
>)
    requires
        targets@.len() == rows@.len(),
    ensures
        r.deep_view() == missing_targets(targets.deep_view(), rows.deep_view(), rows@.len()),
{
    let ghost t = targets.deep_view();
    let ghost m = rows.deep_view();
    let mut missing: Vec<CoverageTargetProjection> = Vec::new();
    let mut i: usize = 0;
    assert(missing.deep_view() =~= Seq::empty());
    while i < rows.len()
        invariant
            i <= rows.len(),
            targets@.len() == rows@.len(),
            t == targets.deep_view(),
            m == rows.deep_view(),
            missing.deep_view() == missing_targets(t, m, i as nat),
        decreases rows.len() - i,
    {
        let ghost before = missing.deep_view();
        assert(t[i as int] == targets@[i as int].deep_view());
        assert(m[i as int] == rows@[i as int].deep_view());
        if !rows[i].covered {
            missing.push(target_projection(&targets[i]));
            assert(missing.deep_view() =~= before.push(shown_target(t[i as int])));
        }
        i = i + 1;
    }
    missing
}

fn collect_covered(rows: &Vec<CoverageValidationRow>) -> (r: Vec<String>)
    ensures
        r.deep_view() == covered_targets(rows.deep_view(), rows@.len()),
        r@.len() <= rows@.len(),
{
    let ghost m = rows.deep_view();
    let mut covered: Vec<String> = Vec::new();
    let mut i: usize = 0;
    assert(covered.deep_view() =~= Seq::empty());
    while i < rows.len()
        invariant
            i <= rows.len(),
            m == rows.deep_view(),
            covered@.len() <= i,
            covered.deep_view() == covered_targets(m, i as nat),
        decreases rows.len() - i,
    {
        let ghost before = covered.deep_view();
        assert(m[i as int] == rows@[i as int].deep_view());
        if rows[i].covered {
            covered.push(rows[i].target_id.clone());
            assert(covered.deep_view() =~= before.push(m[i as int].target_id));
        }
        i = i + 1;
    }
    covered
}

/// What is shown of a change set.
pub open spec fn projection_of(a: ThreadChangeSetAuthorityModel) -> ThreadChangeSetProjectionModel {
    ThreadChangeSetProjectionModel {
        schema: KOTLIN_CHANGE_COVERAGE_PROJECTION_SCHEMA@,
        change_set_id: "thread-coverage:"@ + a.authority_digest,
        authority_digest: a.authority_digest,
        comparison_digest: a.comparison_digest,
        validation_binding_digest: a.validation_binding_digest,
        rules_digest: a.rules_digest,
        before_thread_id: a.before.thread_id,
        after_thread_id: a.after.thread_id,
        callable_id: a.after.callable_id,
        status: a.status,
        member_target_count: a.member_target_count,
        observation_count: a.observation_count,
        obligation_count: a.obligation_count,
        target_count: a.target_count,
        covered_target_count: a.covered_target_count,
        missing_target_count: a.missing_target_count,
        missing_targets: a.public_missing_targets,
        covered_target_ids: a.public_covered_target_ids,
        covered_targets_truncated: a.public_covered_targets_truncated,
        coverage_document_ref: a.coverage_document_ref,
        evidence_ref: a.evidence_ref,
    }
}

/// The compact projection of a change set.
pub fn project(authority: &ThreadChangeSetAuthority) -> (r: ThreadChangeSetProjection)
    ensures
        r.deep_view() == projection_of(authority.deep_view()),
{
    ThreadChangeSetProjection {
        schema: KOTLIN_CHANGE_COVERAGE_PROJECTION_SCHEMA.to_owned(),
        change_set_id: joined("thread-coverage:", authority.authority_digest.as_str()),
        authority_digest: authority.authority_digest.clone(),
        comparison_digest: authority.comparison_digest.clone(),
        validation_binding_digest: authority.validation_binding_digest.clone(),
        rules_digest: authority.rules_digest.clone(),
        before_thread_id: authority.before.thread_id.clone(),
        after_thread_id: authority.after.thread_id.clone(),
        callable_id: authority.after.callable_id.clone(),
        status: authority.status,
        member_target_count: authority.member_target_count,
        observation_count: authority.observation_count,
        obligation_count: authority.obligation_count,
        target_count: authority.target_count,
        covered_target_count: authority.covered_target_count,
        missing_target_count: authority.missing_target_count,
        missing_targets: authority.public_missing_targets.copied(),
        covered_target_ids: authority.public_covered_target_ids.copied(),
        covered_targets_truncated: authority.public_covered_targets_truncated,
        coverage_document_ref: authority.coverage_document_ref.copied(),
        evidence_ref: authority.evidence_ref.copied(),
    }
}

/// The bytes of an authority.
#[verifier::opaque]
pub open spec fn authority_bytes_of(a: ThreadChangeSetAuthorityModel) -> Seq<u8> {
    canonical_bytes(<ThreadChangeSetAuthority as Record>::json(a))
}

/// The bytes of some evidence.
#[verifier::opaque]
pub open spec fn evidence_bytes_of(evidence: KotlinChangeCoverageEvidenceModel) -> Seq<u8> {
    canonical_bytes(<KotlinChangeCoverageEvidence as Record>::json(evidence))
}

/// The bytes of a projection.
#[verifier::opaque]
pub open spec fn projection_bytes_of(projection: ThreadChangeSetProjectionModel) -> Seq<u8> {
    canonical_bytes(<ThreadChangeSetProjection as Record>::json(projection))
}

/// Writes an authority.
pub fn write_authority(authority: &ThreadChangeSetAuthority) -> (r: Vec<u8>)
    ensures
        r@ == authority_bytes_of(authority.deep_view()),
{
    proof {
        reveal(authority_bytes_of);
    }
    authority.to_json().bytes()
}

/// Writes evidence.
pub fn write_evidence(evidence: &KotlinChangeCoverageEvidence) -> (r: Vec<u8>)
    ensures
        r@ == evidence_bytes_of(evidence.deep_view()),
{
    proof {
        reveal(evidence_bytes_of);
    }
    evidence.to_json().bytes()
}

/// Writes a projection.
pub fn write_projection(projection: &ThreadChangeSetProjection) -> (r: Vec<u8>)
    ensures
        r@ == projection_bytes_of(projection.deep_view()),
{
    proof {
        reveal(projection_bytes_of);
    }
    projection.to_json().bytes()
}

/// The digest of an authority: of its bytes, with no digest in them.
#[verifier::opaque]
pub open spec fn digest_of_authority(a: ThreadChangeSetAuthorityModel) -> Seq<char> {
    json_digest(
        <ThreadChangeSetAuthority as Record>::json(
            ThreadChangeSetAuthorityModel { authority_digest: Seq::empty(), ..a },
        ),
    )
}

fn authority_digest(authority: &mut ThreadChangeSetAuthority) -> (r: String)
    ensures
        r@ == digest_of_authority(old(authority).deep_view()),
        is_digest(r@),
        final(authority).deep_view() == (ThreadChangeSetAuthorityModel {
            authority_digest: Seq::empty(),
            ..old(authority).deep_view()
        }),
{
    proof {
        reveal(digest_of_authority);
        reveal_strlit("");
        assert(""@ =~= Seq::empty());
    }
    authority.authority_digest = "".to_owned();
    hash(&authority.to_json())
}

/// An authority with its digest.
pub open spec fn sealed_authority(a: ThreadChangeSetAuthorityModel) -> ThreadChangeSetAuthorityModel {
    ThreadChangeSetAuthorityModel { authority_digest: digest_of_authority(a), ..a }
}

/// Whether the projection of an authority fits, with what is put around it.
pub open spec fn projection_fits(a: ThreadChangeSetAuthorityModel) -> bool {
    projection_bytes_of(projection_of(a)).len() + CHANGE_STDOUT_ENVELOPE_RESERVE
        <= a.budgets.max_stdout_bytes
}

/// An authority without the last of the covered targets that it shows.
pub open spec fn with_less(a: ThreadChangeSetAuthorityModel) -> ThreadChangeSetAuthorityModel {
    ThreadChangeSetAuthorityModel {
        public_covered_target_ids: a.public_covered_target_ids.drop_last(),
        public_covered_targets_truncated: true,
        ..a
    }
}

/// An authority that shows as many covered targets as fit.
pub open spec fn trimmed(a: ThreadChangeSetAuthorityModel) -> Result<
    ThreadChangeSetAuthorityModel,
    ErrorModel,
>
    decreases a.public_covered_target_ids.len(),
{
    let sealed = sealed_authority(a);
    if projection_fits(sealed) {
        Ok(sealed)
    } else if a.public_covered_target_ids.len() == 0 {
        exceeded("mandatory missing Kotlin change targets exceed the stdout bound"@)
    } else {
        trimmed(with_less(a))
    }
}

proof fn digest_ignores_digest(a: ThreadChangeSetAuthorityModel, b: ThreadChangeSetAuthorityModel)
    requires
        a == (ThreadChangeSetAuthorityModel { authority_digest: a.authority_digest, ..b }),
    ensures
        digest_of_authority(a) == digest_of_authority(b),
        sealed_authority(a) == sealed_authority(b),
{
    reveal(digest_of_authority);
}

proof fn trimming_ignores_digest(a: ThreadChangeSetAuthorityModel, b: ThreadChangeSetAuthorityModel)
    requires
        a == (ThreadChangeSetAuthorityModel { authority_digest: a.authority_digest, ..b }),
    ensures
        trimmed(a) == trimmed(b),
    decreases b.public_covered_target_ids.len(),
{
    digest_ignores_digest(a, b);
    if b.public_covered_target_ids.len() > 0 {
        trimming_ignores_digest(with_less(a), with_less(b));
    }
}

fn trim(authority: ThreadChangeSetAuthority) -> (r: Result<ThreadChangeSetAuthority, ClewError>)
    ensures
        outcome(r) == trimmed(authority.deep_view()),
        r is Ok ==> is_digest(r->Ok_0.authority_digest@),
{
    let ghost start = authority.deep_view();
    let mut draft = authority;
    let max_stdout: usize = draft.budgets.max_stdout_bytes;
    loop
        invariant
            start == authority.deep_view(),
            max_stdout == draft.deep_view().budgets.max_stdout_bytes,
            trimmed(start) == trimmed(draft.deep_view()),
        decreases draft.public_covered_target_ids.deep_view().len(),
    {
        let ghost a = draft.deep_view();
        let digest = authority_digest(&mut draft);
        draft.authority_digest = digest;
        assert(draft.deep_view() == sealed_authority(a));
        let projection_len: usize = write_projection(&project(&draft)).len();
        if max_stdout >= CHANGE_STDOUT_ENVELOPE_RESERVE && projection_len <= max_stdout
            - CHANGE_STDOUT_ENVELOPE_RESERVE {
            return Ok(draft);
        }
        assert(draft.public_covered_target_ids.deep_view() == a.public_covered_target_ids);
        let popped = draft.public_covered_target_ids.pop();
        if popped.is_none() {
            return Err(budget("mandatory missing Kotlin change targets exceed the stdout bound"));
        }
        draft.public_covered_targets_truncated = true;
        proof {
            let less = draft.deep_view();
            assert(less.public_covered_target_ids =~= a.public_covered_target_ids.drop_last());
            trimming_ignores_digest(less, with_less(a));
        }
    }
}

/// The authority of some evidence, before it is trimmed and sealed.
pub open spec fn authority_drafted(
    evidence: KotlinChangeCoverageEvidenceModel,
    budgets: ChangeSetBudgetsModel,
    evidence_ref: CasObjectModel,
    closure: Seq<CasObjectModel>,
    retained_cas_bytes: usize,
) -> ThreadChangeSetAuthorityModel {
    let rows = evidence.validation_rows;
    let covered = covered_targets(rows, rows.len());
    ThreadChangeSetAuthorityModel {
        schema: KOTLIN_CHANGE_COVERAGE_AUTHORITY_SCHEMA@,
        authority_digest: Seq::empty(),
        comparison_digest: evidence.comparison_digest,
        validation_binding_digest: evidence.validation_binding_digest,
        rules_digest: evidence.rules_digest,
        before: evidence.before,
        after: evidence.after,
        runtime_authorities: evidence.runtime_authorities,
        validator_runtime: evidence.validator_runtime,
        member_correspondence: evidence.member_correspondence,
        status: if covered.len() == rows.len() {
            ChangeSetStatus::ValidatedConditional
        } else {
            ChangeSetStatus::Incomplete
        },
        member_target_count: evidence.member_correspondence.len() as usize,
        observation_count: evidence.observations.len() as usize,
        obligation_count: evidence.obligations.len() as usize,
        target_count: evidence.targets.len() as usize,
        covered_target_count: covered.len() as usize,
        missing_target_count: (rows.len() - covered.len()) as usize,
        public_missing_targets: missing_targets(evidence.targets, rows, rows.len()),
        public_covered_target_ids: covered,
        public_covered_targets_truncated: false,
        coverage_document_ref: document_ref_of(evidence.coverage_document),
        evidence_ref,
        direct_cas_closure: closure,
        retained_cas_bytes,
        new_derived_cas_object_count: 2,
        budgets,
    }
}

/// What is published of an authority with its evidence.
pub open spec fn published(
    authority: ThreadChangeSetAuthorityModel,
    evidence: KotlinChangeCoverageEvidenceModel,
) -> PreparedThreadChangeSetModel {
    PreparedThreadChangeSetModel {
        authority,
        evidence,
        coverage_document: evidence.coverage_document,
        coverage_document_object: PreparedCasObjectModel {
            reference: document_ref_of(evidence.coverage_document),
            bytes: document_bytes(evidence.coverage_document),
        },
        evidence_object: PreparedCasObjectModel {
            reference: reference_to(
                KOTLIN_CHANGE_COVERAGE_EVIDENCE_SCHEMA@,
                evidence_bytes_of(evidence),
            ),
            bytes: evidence_bytes_of(evidence),
        },
        authority_bytes: authority_bytes_of(authority),
        projection: projection_of(authority),
        projection_bytes: projection_bytes_of(projection_of(authority)),
    }
}

/// The change set that some evidence makes.
#[verifier::opaque]
pub open spec fn change_set_of(
    before: VerifiedChangeSideModel,
    after: VerifiedChangeSideModel,
    evidence: KotlinChangeCoverageEvidenceModel,
    budgets: ChangeSetBudgetsModel,
) -> Result<PreparedThreadChangeSetModel, ErrorModel> {
    let evidence_ref = reference_to(
        KOTLIN_CHANGE_COVERAGE_EVIDENCE_SCHEMA@,
        evidence_bytes_of(evidence),
    );
    match change_closed(
        before,
        after,
        document_ref_of(evidence.coverage_document),
        evidence_ref,
        budgets,
    ) {
        Err(e) => Err(e),
        Ok((closure, bytes)) => match trimmed(
            authority_drafted(evidence, budgets, evidence_ref, closure, bytes),
        ) {
            Err(e) => Err(e),
            Ok(authority) => Ok(published(authority, evidence)),
        },
    }
}

/// The change set of a request between two verified sides.
#[verifier::opaque]
pub open spec fn change_set_built(
    before: VerifiedChangeSideModel,
    after: VerifiedChangeSideModel,
    request: ThreadChangeSetRequestModel,
) -> Result<PreparedThreadChangeSetModel, ErrorModel> {
    match change_scoped(before, after, request) {
        Err(e) => Err(e),
        Ok(scope) => match evidence_collected(before, after, scope, request) {
            Err(e) => Err(e),
            Ok(evidence) => change_set_of(before, after, evidence, request.budgets),
        },
    }
}

/// A row for each target.
pub proof fn rows_match_targets(
    before: VerifiedChangeSideModel,
    after: VerifiedChangeSideModel,
    scope: ChangeScope,
    request: ThreadChangeSetRequestModel,
    evidence: KotlinChangeCoverageEvidenceModel,
)
    requires
        evidence_collected(before, after, scope, request) == Ok::<
            KotlinChangeCoverageEvidenceModel,
            ErrorModel,
        >(evidence),
    ensures
        evidence.validation_rows.len() == evidence.targets.len(),
        forall|i: int|
            0 <= i < evidence.targets.len() ==> (#[trigger] evidence.validation_rows[i]) == row_of(
                evidence.targets[i],
                evidence.coverage_document.entries,
            ),
{
    reveal(evidence_collected);
}

fn build_from_evidence(
    before: &VerifiedChangeSide<'_>,
    after: &VerifiedChangeSide<'_>,
    evidence: KotlinChangeCoverageEvidence,
    document_bytes: Vec<u8>,
    budgets: &ChangeSetBudgets,
) -> (r: Result<PreparedThreadChangeSet, ClewError>)
    requires
        document_bytes@ == self::document_bytes(evidence.deep_view().coverage_document),
        evidence.validation_rows@.len() == evidence.targets@.len(),
    ensures
        outcome(r) == change_set_of(
            before.deep_view(),
            after.deep_view(),
            evidence.deep_view(),
            budgets.deep_view(),
        ),
        r is Ok ==> is_digest(r->Ok_0.authority.authority_digest@),
{
    proof {
        reveal(change_set_of);
    }
    let ghost e = evidence.deep_view();
    let document_ref = CasObject::for_bytes(
        KOTLIN_CHANGE_COVERAGE_DOCUMENT_SCHEMA,
        document_bytes.as_slice(),
    );
    let evidence_bytes = write_evidence(&evidence);
    let evidence_ref = CasObject::for_bytes(
        KOTLIN_CHANGE_COVERAGE_EVIDENCE_SCHEMA,
        evidence_bytes.as_slice(),
    );
    let (direct_cas_closure, retained_cas_bytes) = direct_closure(
        before,
        after,
        &document_ref,
        &evidence_ref,
        budgets,
    )?;
    let public_missing_targets = collect_missing(&evidence.targets, &evidence.validation_rows);
    let public_covered_target_ids = collect_covered(&evidence.validation_rows);
    let rows: usize = evidence.validation_rows.len();
    let covered: usize = public_covered_target_ids.len();
    let missing: usize = rows - covered;
    proof {
        reveal_strlit("");
        assert(""@ =~= Seq::empty());
    }
    let draft = ThreadChangeSetAuthority {
        schema: KOTLIN_CHANGE_COVERAGE_AUTHORITY_SCHEMA.to_owned(),
        authority_digest: "".to_owned(),
        comparison_digest: evidence.comparison_digest.clone(),
        validation_binding_digest: evidence.validation_binding_digest.clone(),
        rules_digest: evidence.rules_digest.clone(),
        before: evidence.before.copied(),
        after: evidence.after.copied(),
        runtime_authorities: evidence.runtime_authorities.copied(),
        validator_runtime: evidence.validator_runtime.copied(),
        member_correspondence: evidence.member_correspondence.copied(),
        status: if missing == 0 {
            ChangeSetStatus::ValidatedConditional
        } else {
            ChangeSetStatus::Incomplete
        },
        member_target_count: evidence.member_correspondence.len(),
        observation_count: evidence.observations.len(),
        obligation_count: evidence.obligations.len(),
        target_count: evidence.targets.len(),
        covered_target_count: covered,
        missing_target_count: missing,
        public_missing_targets,
        public_covered_target_ids,
        public_covered_targets_truncated: false,
        coverage_document_ref: document_ref.copied(),
        evidence_ref: evidence_ref.copied(),
        direct_cas_closure,
        retained_cas_bytes,
        new_derived_cas_object_count: 2,
        budgets: budgets.copied(),
    };
    assert(draft.deep_view() == authority_drafted(
        e,
        budgets.deep_view(),
        evidence_ref.deep_view(),
        direct_cas_closure.deep_view(),
        retained_cas_bytes,
    ));
    let authority = trim(draft)?;
    let authority_bytes = write_authority(&authority);
    let projection = project(&authority);
    let projection_bytes = write_projection(&projection);
    Ok(
        PreparedThreadChangeSet {
            authority,
            coverage_document: evidence.coverage_document.copied(),
            evidence,
            coverage_document_object: PreparedCasObject {
                reference: document_ref,
                bytes: document_bytes,
            },
            evidence_object: PreparedCasObject { reference: evidence_ref, bytes: evidence_bytes },
            authority_bytes,
            projection,
            projection_bytes,
        },
    )
}

/// Builds the change set of a request between two verified sides.
pub fn build_from_verified(
    before: &VerifiedChangeSide<'_>,
    after: &VerifiedChangeSide<'_>,
    request: &ThreadChangeSetRequest,
) -> (r: Result<PreparedThreadChangeSet, ClewError>)
    ensures
        outcome(r) == change_set_built(
            before.deep_view(),
            after.deep_view(),
            request.deep_view(),
        ),
        r is Ok ==> is_digest(r->Ok_0.authority.authority_digest@),
{
    proof {
        reveal(change_set_built);
    }
    let scope = scope(before, after, request)?;
    let (evidence, document_bytes) = collect_evidence(before, after, &scope, request)?;
    proof {
        rows_match_targets(
            before.deep_view(),
            after.deep_view(),
            scope.deep_view(),
            request.deep_view(),
            evidence.deep_view(),
        );
    }
    build_from_evidence(before, after, evidence, document_bytes, &request.budgets)
}

/// What verifying the thread and the fact set of a side refused, if anything.
pub struct SideChecks {
    pub thread: Option<ClewError>,
    pub fact_set: Option<ClewError>,
}

/// The model of [`SideChecks`].
pub struct SideChecksModel {
    pub thread: Option<ErrorModel>,
    pub fact_set: Option<ErrorModel>,
}

impl DeepView for SideChecks {
    type V = SideChecksModel;

    open spec fn deep_view(&self) -> SideChecksModel {
        SideChecksModel { thread: self.thread.deep_view(), fact_set: self.fact_set.deep_view() }
    }
}

/// The outcome of verifying one side of a change: its thread and its fact set verify, then
/// its impact does, and the three belong together.
pub open spec fn side_verified(side: VerifiedChangeSideModel, checks: SideChecksModel) -> Result<
    (),
    ErrorModel,
> {
    match accepted(checks.thread) {
        Err(e) => Err(e),
        Ok(_) => match accepted(checks.fact_set) {
            Err(e) => Err(e),
            Ok(_) => side_consistent(side),
        },
    }
}

/// The outcome of verifying the impact of one side of a change, and that the thread, the
/// fact set and the impact belong together.
pub open spec fn side_consistent(side: VerifiedChangeSideModel) -> Result<(), ErrorModel> {
    match impact_verified(side.fact_set, side.impact, side.trace) {
        Err(e) => Err(e),
        Ok(_) => if side.fact_set.authority.thread_id != side.thread.thread_id
            || side.fact_set.authority.thread_authority_digest != side.thread.authority_digest
            || side.impact.authority.fact_set_authority_digest
            != side.fact_set.authority.authority_digest {
            corrupted("Kotlin change-set parent thread/fact-set/impact authority is inconsistent"@)
        } else {
            Ok(())
        },
    }
}

fn verify_side(side: &VerifiedChangeSide<'_>, checks: &SideChecks) -> (r: Result<(), ClewError>)
    ensures
        outcome(r) == side_verified(side.deep_view(), checks.deep_view()),
{
    accept(&checks.thread)?;
    thread_impact::verify_prepared(side.fact_set, &checks.fact_set, side.impact, side.trace)?;
    if !side.fact_set.authority.thread_id.same_as(&side.thread.thread_id)
        || !side.fact_set.authority.thread_authority_digest.same_as(&side.thread.authority_digest)
        || !side.impact.authority.fact_set_authority_digest.same_as(
        &side.fact_set.authority.authority_digest,
    ) {
        return Err(
            corrupt("Kotlin change-set parent thread/fact-set/impact authority is inconsistent"),
        );
    }
    Ok(())
}

/// Verifies both sides, given what verifying their threads and fact sets refused, if
/// anything, and builds everything that is to be published
/// of the change between them.
pub fn build(
    before: &VerifiedChangeSide<'_>,
    before_checks: &SideChecks,
    after: &VerifiedChangeSide<'_>,
    after_checks: &SideChecks,
    request: &ThreadChangeSetRequest,
) -> (r: Result<PreparedThreadChangeSet, ClewError>)
    ensures
        outcome(r) == (match side_verified(before.deep_view(), before_checks.deep_view()) {
            Err(e) => Err(e),
            Ok(_) => match side_verified(after.deep_view(), after_checks.deep_view()) {
                Err(e) => Err(e),
                Ok(_) => change_set_built(
                    before.deep_view(),
                    after.deep_view(),
                    request.deep_view(),
                ),
            },
        }),
{
    verify_side(before, before_checks)?;
    verify_side(after, after_checks)?;
    build_from_verified(before, after, request)
}

/// The request that a change set was built for, given the document that the bytes
/// of its coverage document hold, where they hold one.
pub open spec fn request_of(
    p: PreparedThreadChangeSetModel,
    document: Option<KotlinChangeCoverageDocumentModel>,
) -> ThreadChangeSetRequestModel {
    ThreadChangeSetRequestModel {
        member_correspondence: p.authority.member_correspondence,
        coverage_document: p.coverage_document_object.bytes,
        document,
        validator_runtime: p.authority.validator_runtime,
        budgets: p.authority.budgets,
    }
}

/// The outcome of verifying a change set between two verified sides.
pub open spec fn change_set_verified(
    before: VerifiedChangeSideModel,
    after: VerifiedChangeSideModel,
    p: PreparedThreadChangeSetModel,
    document: Option<KotlinChangeCoverageDocumentModel>,
) -> Result<(), ErrorModel> {
    match change_set_built(before, after, request_of(p, document)) {
        Err(_) => corrupted("prepared Kotlin change set cannot be reconstructed"@),
        Ok(expected) => if expected != p {
            corrupted("prepared Kotlin change-set authority/evidence/projection was substituted"@)
        } else {
            Ok(())
        },
    }
}

/// Builds a change set again from its verified sides, and rejects it where anything
/// in it differs. The document is the one that the bytes of the coverage document
/// hold, where they hold one.
pub fn verify_prepared_from_verified(
    before: &VerifiedChangeSide<'_>,
    after: &VerifiedChangeSide<'_>,
    prepared: &PreparedThreadChangeSet,
    document: &Option<KotlinChangeCoverageDocument>,
) -> (r: Result<(), ClewError>)
    ensures
        outcome(r) == change_set_verified(
            before.deep_view(),
            after.deep_view(),
            prepared.deep_view(),
            document.deep_view(),
        ),
{
    let request = ThreadChangeSetRequest {
        member_correspondence: prepared.authority.member_correspondence.copied(),
        coverage_document: copy_bytes(&prepared.coverage_document_object.bytes),
        document: document.copied(),
        validator_runtime: prepared.authority.validator_runtime.copied(),
        budgets: prepared.authority.budgets.copied(),
    };
    let expected = match build_from_verified(before, after, &request) {
        Ok(expected) => expected,
        Err(_) => {
            return Err(corrupt("prepared Kotlin change set cannot be reconstructed"));
        },
    };
    if !expected.same_as(prepared) {
        return Err(
            corrupt("prepared Kotlin change-set authority/evidence/projection was substituted"),
        );
    }
    Ok(())
}

/// Verifies both sides, given what verifying their threads and fact sets refused, if
/// anything, and the change set between them.
pub fn verify_prepared(
    before: &VerifiedChangeSide<'_>,
    before_checks: &SideChecks,
    after: &VerifiedChangeSide<'_>,
    after_checks: &SideChecks,
    prepared: &PreparedThreadChangeSet,
    document: &Option<KotlinChangeCoverageDocument>,
) -> (r: Result<(), ClewError>)
    ensures
        outcome(r) == (match side_verified(before.deep_view(), before_checks.deep_view()) {
            Err(e) => Err(e),
            Ok(_) => match side_verified(after.deep_view(), after_checks.deep_view()) {
                Err(e) => Err(e),
                Ok(_) => change_set_verified(
                    before.deep_view(),
                    after.deep_view(),
                    prepared.deep_view(),
                    document.deep_view(),
                ),
            },
        }),
{
    verify_side(before, before_checks)?;
    verify_side(after, after_checks)?;
    verify_prepared_from_verified(before, after, prepared, document)
}

/// Whether an entry of a coverage document is acceptable on its own.
pub open spec fn is_acceptable(entry: CoverageDocumentEntryModel) -> bool {
    is_digest(entry.target_id) && is_safe_tracking_id(entry.handling.id)
        && entry.required_categories.len() > 0 && entry_ordered(entry).required_categories.len()
        == entry.required_categories.len()
}

/// Entries with their categories in order.
pub open spec fn entries_ordered(entries: Seq<CoverageDocumentEntryModel>) -> Seq<
    CoverageDocumentEntryModel,
> {
    Seq::new(entries.len(), |i: int| entry_ordered(entries[i]))
}

/// The entries of a coverage document are accepted exactly where each is acceptable
/// on its own and none has the target of another.
pub proof fn entries_are_accepted(entries: Seq<CoverageDocumentEntryModel>)
    ensures
        entries_from(entries, Seq::empty(), 0) is Ok <==> (forall|i: int|
            0 <= i < entries.len() ==> is_acceptable(#[trigger] entries[i])) && !repeats::<
            CoverageDocumentEntry,
        >(entries),
        entries_from(entries, Seq::empty(), 0) is Ok ==> entries_from(entries, Seq::empty(), 0)
            == Ok::<Seq<CoverageDocumentEntryModel>, ErrorModel>(entries_ordered(entries)),
{
    assert(entries_ordered(entries).take(0) =~= Seq::empty());
    entries_accepted_from(entries, 0);
}

proof fn entries_accepted_from(entries: Seq<CoverageDocumentEntryModel>, i: int)
    requires
        0 <= i <= entries.len(),
        forall|k: int| 0 <= k < i ==> is_acceptable(#[trigger] entries[k]),
        forall|a: int, b: int|
            0 <= a < b < i ==> (#[trigger] entries[a]).target_id != (
            #[trigger] entries[b]).target_id,
    ensures
        ({
            let r = entries_from(entries, entries_ordered(entries).take(i), i);
            &&& r is Ok <==> (forall|k: int|
                0 <= k < entries.len() ==> is_acceptable(#[trigger] entries[k])) && !repeats::<
                CoverageDocumentEntry,
            >(entries)
            &&& r is Ok ==> r == Ok::<Seq<CoverageDocumentEntryModel>, ErrorModel>(
                entries_ordered(entries),
            )
        }),
    decreases entries.len() - i,
{
    let all = entries_ordered(entries);
    let before = all.take(i);
    if i == entries.len() {
        assert(before =~= all);
        if repeats::<CoverageDocumentEntry>(entries) {
            let (a, b) = choose|a: int, b: int|
                0 <= a < b < entries.len() && CoverageDocumentEntry::key(#[trigger] entries[a])
                    == CoverageDocumentEntry::key(#[trigger] entries[b]);
            assert(entries[a].target_id == entries[b].target_id);
        }
    } else {
        let entry = entries[i];
        if has_key::<CoverageDocumentEntry>(before, entry.target_id) {
            let k = choose|k: int|
                0 <= k < before.len() && CoverageDocumentEntry::key(#[trigger] before[k])
                    == entry.target_id;
            assert(before[k] == entry_ordered(entries[k]));
            assert(CoverageDocumentEntry::key(entries[k]) == CoverageDocumentEntry::key(
                entries[i],
            ));
            assert(repeats::<CoverageDocumentEntry>(entries));
        } else if is_acceptable(entry) {
            assert forall|a: int, b: int| 0 <= a < b < i + 1 implies (
            #[trigger] entries[a]).target_id != (#[trigger] entries[b]).target_id by {
                if b == i && entries[a].target_id == entries[b].target_id {
                    assert(CoverageDocumentEntry::key(before[a]) == entry.target_id);
                }
            }
            assert(before.push(entry_ordered(entry)) =~= all.take(i + 1));
            entries_accepted_from(entries, i + 1);
        } else {
            assert(!is_acceptable(entries[i]));
        }
    }
}

proof fn ordering_an_entry_again(entry: CoverageDocumentEntryModel)
    requires
        is_acceptable(entry),
    ensures
        entry_ordered(entry_ordered(entry)) == entry_ordered(entry),
        is_acceptable(entry_ordered(entry)),
{
    order::first_table_is_table::<VerificationCategory>(entry.required_categories);
    order::table_of_table::<VerificationCategory>(entry_ordered(entry).required_categories);
}

proof fn sorting_keeps_acceptance(entries: Seq<CoverageDocumentEntryModel>)
    requires
        forall|i: int| 0 <= i < entries.len() ==> is_acceptable(#[trigger] entries[i]),
        !repeats::<CoverageDocumentEntry>(entries),
    ensures
        forall|i: int|
            0 <= i < sorted::<CoverageDocumentEntry>(entries).len() ==> is_acceptable(
                #[trigger] sorted::<CoverageDocumentEntry>(entries)[i],
            ),
        !repeats::<CoverageDocumentEntry>(sorted::<CoverageDocumentEntry>(entries)),
        is_table::<CoverageDocumentEntry>(sorted::<CoverageDocumentEntry>(entries)),
        forall|x: CoverageDocumentEntryModel|
            sorted::<CoverageDocumentEntry>(entries).contains(x) <==> #[trigger] entries.contains(
                x,
            ),
{
    broadcast use vstd::seq_lib::group_to_multiset_ensures;

    let s = sorted::<CoverageDocumentEntry>(entries);
    sorted_is_sorted::<CoverageDocumentEntry>(entries);
    assert forall|x: CoverageDocumentEntryModel| s.contains(x) <==> #[trigger] entries.contains(
        x,
    ) by {
        assert(s.contains(x) <==> s.to_multiset().count(x) > 0);
        assert(entries.contains(x) <==> entries.to_multiset().count(x) > 0);
    }
    assert forall|i: int| 0 <= i < s.len() implies is_acceptable(#[trigger] s[i]) by {
        assert(s.contains(s[i]));
        assert(entries.contains(s[i]));
        let k = choose|k: int| 0 <= k < entries.len() && entries[k] == s[i];
        assert(is_acceptable(entries[k]));
    }
    assert(entries.no_duplicates()) by {
        assert forall|i: int, j: int|
            0 <= i < entries.len() && 0 <= j < entries.len() && i != j implies entries[i]
            != entries[j] by {
            if entries[i] == entries[j] {
                if i < j {
                    assert(CoverageDocumentEntry::key(entries[i]) == CoverageDocumentEntry::key(
                        entries[j],
                    ));
                } else {
                    assert(CoverageDocumentEntry::key(entries[j]) == CoverageDocumentEntry::key(
                        entries[i],
                    ));
                }
            }
        }
    }
    entries.lemma_multiset_has_no_duplicates();
    s.lemma_multiset_has_no_duplicates_conv();
    assert(!repeats::<CoverageDocumentEntry>(s)) by {
        if repeats::<CoverageDocumentEntry>(s) {
            let (a, b) = choose|a: int, b: int|
                0 <= a < b < s.len() && CoverageDocumentEntry::key(#[trigger] s[a])
                    == CoverageDocumentEntry::key(#[trigger] s[b]);
            assert(s[a] != s[b]);
            assert(s.contains(s[a]) && s.contains(s[b]));
            assert(entries.contains(s[a]) && entries.contains(s[b]));
            let p = choose|p: int| 0 <= p < entries.len() && entries[p] == s[a];
            let q = choose|q: int| 0 <= q < entries.len() && entries[q] == s[b];
            if p < q {
                assert(CoverageDocumentEntry::key(entries[p]) == CoverageDocumentEntry::key(
                    entries[q],
                ));
            } else {
                assert(CoverageDocumentEntry::key(entries[q]) == CoverageDocumentEntry::key(
                    entries[p],
                ));
            }
        }
    }
    assert forall|i: int, j: int| 0 <= i < j < s.len() implies crate::text::text_less(
        CoverageDocumentEntry::key(#[trigger] s[i]),
        CoverageDocumentEntry::key(#[trigger] s[j]),
    ) by {
        assert(CoverageDocumentEntry::key(s[i]) != CoverageDocumentEntry::key(s[j]));
        crate::text::text_less_total(
            CoverageDocumentEntry::key(s[i]),
            CoverageDocumentEntry::key(s[j]),
        );
    }
}

proof fn ordering_keeps_acceptance(entries: Seq<CoverageDocumentEntryModel>)
    requires
        forall|i: int| 0 <= i < entries.len() ==> is_acceptable(#[trigger] entries[i]),
        !repeats::<CoverageDocumentEntry>(entries),
    ensures
        forall|i: int|
            0 <= i < entries_ordered(entries).len() ==> is_acceptable(
                #[trigger] entries_ordered(entries)[i],
            ) && entry_ordered(entries_ordered(entries)[i]) == entries_ordered(entries)[i],
        !repeats::<CoverageDocumentEntry>(entries_ordered(entries)),
{
    let o = entries_ordered(entries);
    assert forall|i: int| 0 <= i < o.len() implies is_acceptable(#[trigger] o[i]) && entry_ordered(
        o[i],
    ) == o[i] by {
        assert(is_acceptable(entries[i]));
        ordering_an_entry_again(entries[i]);
    }
    if repeats::<CoverageDocumentEntry>(o) {
        let (a, b) = choose|a: int, b: int|
            0 <= a < b < o.len() && CoverageDocumentEntry::key(#[trigger] o[a])
                == CoverageDocumentEntry::key(#[trigger] o[b]);
        assert(CoverageDocumentEntry::key(entries[a]) == CoverageDocumentEntry::key(entries[b]));
    }
}

/// A normalized coverage document is its own normal form.
pub proof fn document_normalization_is_idempotent(
    raw_len: nat,
    document: KotlinChangeCoverageDocumentModel,
    budgets: ChangeSetBudgetsModel,
    normal: KotlinChangeCoverageDocumentModel,
)
    requires
        document_normalized(raw_len, Some(document), budgets) == Ok::<
            KotlinChangeCoverageDocumentModel,
            ErrorModel,
        >(normal),
    ensures
        document_normalized(document_bytes(normal).len(), Some(normal), budgets) == Ok::<
            KotlinChangeCoverageDocumentModel,
            ErrorModel,
        >(normal),
{
    let entries = document.entries;
    let o = entries_ordered(entries);
    let s = sorted::<CoverageDocumentEntry>(o);
    entries_are_accepted(entries);
    ordering_keeps_acceptance(entries);
    sorting_keeps_acceptance(o);
    entries_are_accepted(s);
    assert(normal.entries == s);
    assert(entries_ordered(s) =~= s) by {
        assert forall|i: int| 0 <= i < s.len() implies entry_ordered(#[trigger] s[i]) == s[i] by {
            assert(s.contains(s[i]));
            assert(o.contains(s[i]));
            let k = choose|k: int| 0 <= k < o.len() && o[k] == s[i];
            assert(entry_ordered(o[k]) == o[k]);
        }
    }
    sorted_is_sorted::<CoverageDocumentEntry>(o);
    crate::table::sorting_keeps_sorted::<CoverageDocumentEntry>(s);
    assert(s.len() == entries.len()) by {
        broadcast use vstd::seq_lib::group_to_multiset_ensures;

        assert(s.to_multiset().len() == s.len());
        assert(o.to_multiset().len() == o.len());
    }
}

/// The order in which the entries of a coverage document stand makes no difference:
/// documents with the same entries have the same normal form.
pub proof fn document_order_is_irrelevant(
    raw_len: nat,
    document: KotlinChangeCoverageDocumentModel,
    other_len: nat,
    other: KotlinChangeCoverageDocumentModel,
    budgets: ChangeSetBudgetsModel,
)
    requires
        document_normalized(raw_len, Some(document), budgets) is Ok,
        other_len <= budgets.max_coverage_document_bytes,
        other.schema == document.schema,
        other.entries.to_multiset() == document.entries.to_multiset(),
    ensures
        document_normalized(other_len, Some(other), budgets) == document_normalized(
            raw_len,
            Some(document),
            budgets,
        ),
{
    broadcast use vstd::seq_lib::group_to_multiset_ensures;

    let e = document.entries;
    let f = other.entries;
    assert(e.to_multiset().len() == e.len());
    assert(f.to_multiset().len() == f.len());
    entries_are_accepted(e);
    entries_are_accepted(f);
    assert forall|x: CoverageDocumentEntryModel| f.contains(x) <==> #[trigger] e.contains(x) by {
        assert(f.contains(x) <==> f.to_multiset().count(x) > 0);
        assert(e.contains(x) <==> e.to_multiset().count(x) > 0);
    }
    assert forall|i: int| 0 <= i < f.len() implies is_acceptable(#[trigger] f[i]) by {
        assert(f.contains(f[i]));
        assert(e.contains(f[i]));
        let k = choose|k: int| 0 <= k < e.len() && e[k] == f[i];
        assert(is_acceptable(e[k]));
    }
    sorting_keeps_acceptance(e);
    assert(e.no_duplicates()) by {
        assert forall|i: int, j: int|
            0 <= i < e.len() && 0 <= j < e.len() && i != j implies e[i] != e[j] by {
            if e[i] == e[j] {
                if i < j {
                    assert(CoverageDocumentEntry::key(e[i]) == CoverageDocumentEntry::key(e[j]));
                } else {
                    assert(CoverageDocumentEntry::key(e[j]) == CoverageDocumentEntry::key(e[i]));
                }
            }
        }
    }
    e.lemma_multiset_has_no_duplicates();
    f.lemma_multiset_has_no_duplicates_conv();
    assert(!repeats::<CoverageDocumentEntry>(f)) by {
        if repeats::<CoverageDocumentEntry>(f) {
            let (a, b) = choose|a: int, b: int|
                0 <= a < b < f.len() && CoverageDocumentEntry::key(#[trigger] f[a])
                    == CoverageDocumentEntry::key(#[trigger] f[b]);
            assert(f[a] != f[b]);
            assert(f.contains(f[a]) && f.contains(f[b]));
            assert(e.contains(f[a]) && e.contains(f[b]));
            let p = choose|p: int| 0 <= p < e.len() && e[p] == f[a];
            let q = choose|q: int| 0 <= q < e.len() && e[q] == f[b];
            if p < q {
                assert(CoverageDocumentEntry::key(e[p]) == CoverageDocumentEntry::key(e[q]));
            } else {
                assert(CoverageDocumentEntry::key(e[q]) == CoverageDocumentEntry::key(e[p]));
            }
        }
    }
    let oe = entries_ordered(e);
    let of = entries_ordered(f);
    ordering_keeps_acceptance(e);
    ordering_keeps_acceptance(f);
    sorting_keeps_acceptance(oe);
    sorting_keeps_acceptance(of);
    let se = sorted::<CoverageDocumentEntry>(oe);
    let sf = sorted::<CoverageDocumentEntry>(of);
    assert forall|x: CoverageDocumentEntryModel| se.contains(x) <==> #[trigger] sf.contains(x) by {
        if oe.contains(x) {
            let k = choose|k: int| 0 <= k < oe.len() && oe[k] == x;
            assert(e.contains(e[k]));
            assert(f.contains(e[k]));
            let j = choose|j: int| 0 <= j < f.len() && f[j] == e[k];
            assert(of[j] == x);
            assert(of.contains(x));
        }
        if of.contains(x) {
            let k = choose|k: int| 0 <= k < of.len() && of[k] == x;
            assert(f.contains(f[k]));
            assert(e.contains(f[k]));
            let j = choose|j: int| 0 <= j < e.len() && e[j] == f[k];
            assert(oe[j] == x);
            assert(oe.contains(x));
        }
        assert(se.contains(x) <==> oe.contains(x));
        assert(sf.contains(x) <==> of.contains(x));
    }
    crate::table::tables_with_same_records::<CoverageDocumentEntry>(se, sf);
}

proof fn trimming_keeps_the_rest(a: ThreadChangeSetAuthorityModel)
    ensures
        match trimmed(a) {
            Ok(t) => {
                &&& t == sealed_authority(
                    ThreadChangeSetAuthorityModel {
                        public_covered_target_ids: t.public_covered_target_ids,
                        public_covered_targets_truncated: t.public_covered_targets_truncated,
                        ..a
                    },
                )
                &&& t.public_covered_target_ids.is_prefix_of(a.public_covered_target_ids)
                &&& t.public_covered_targets_truncated == (a.public_covered_targets_truncated
                    || t.public_covered_target_ids.len() < a.public_covered_target_ids.len())
                &&& t.authority_digest == digest_of_authority(t)
                &&& projection_fits(t)
            },
            Err(_) => true,
        },
    decreases a.public_covered_target_ids.len(),
{
    digest_ignores_digest(sealed_authority(a), a);
    if !projection_fits(sealed_authority(a)) && a.public_covered_target_ids.len() > 0 {
        trimming_keeps_the_rest(with_less(a));
        if let Ok(t) = trimmed(a) {
            assert(t.public_covered_target_ids.is_prefix_of(
                a.public_covered_target_ids.drop_last(),
            ));
            assert(t.public_covered_target_ids.is_prefix_of(a.public_covered_target_ids));
        }
    }
}

proof fn all_covered(rows: Seq<CoverageValidationRowModel>, n: nat)
    requires
        n <= rows.len(),
    ensures
        covered_targets(rows, n).len() <= n,
        covered_targets(rows, n).len() == n <==> (forall|i: int|
            0 <= i < n ==> (#[trigger] rows[i]).covered),
    decreases n,
{
    if n > 0 {
        all_covered(rows, (n - 1) as nat);
        assert(rows[n - 1].covered ==> ((forall|i: int|
            0 <= i < n ==> (#[trigger] rows[i]).covered) <==> (forall|i: int|
            0 <= i < n - 1 ==> (#[trigger] rows[i]).covered)));
    }
}

proof fn missing_counted(
    targets: Seq<CoverageTargetModel>,
    rows: Seq<CoverageValidationRowModel>,
    n: nat,
)
    requires
        n <= rows.len(),
        rows.len() == targets.len(),
    ensures
        missing_targets(targets, rows, n).len() + covered_targets(rows, n).len() == n,
    decreases n,
{
    if n > 0 {
        missing_counted(targets, rows, (n - 1) as nat);
    }
}

/// A change set is validated exactly where every target is covered. What is
/// published shows every target that is not covered, leaves out covered ones only
/// from the end, and then says so; it fits within its bound.
pub proof fn published_change_set_is_honest(
    before: VerifiedChangeSideModel,
    after: VerifiedChangeSideModel,
    request: ThreadChangeSetRequestModel,
    p: PreparedThreadChangeSetModel,
)
    requires
        change_set_built(before, after, request) == Ok::<PreparedThreadChangeSetModel, ErrorModel>(
            p,
        ),
    ensures
        p == published(p.authority, p.evidence),
        p.evidence.validation_rows.len() == p.evidence.targets.len(),
        p.authority.status == ChangeSetStatus::ValidatedConditional <==> (forall|i: int|
            0 <= i < p.evidence.validation_rows.len() ==> (
            #[trigger] p.evidence.validation_rows[i]).covered),
        p.projection.missing_targets == missing_targets(
            p.evidence.targets,
            p.evidence.validation_rows,
            p.evidence.validation_rows.len(),
        ),
        p.projection.missing_targets.len() + covered_targets(
            p.evidence.validation_rows,
            p.evidence.validation_rows.len(),
        ).len() == p.evidence.targets.len(),
        p.projection.covered_target_ids.is_prefix_of(
            covered_targets(p.evidence.validation_rows, p.evidence.validation_rows.len()),
        ),
        p.projection.covered_targets_truncated == (p.projection.covered_target_ids.len()
            < covered_targets(p.evidence.validation_rows, p.evidence.validation_rows.len()).len()),
        p.projection_bytes.len() + CHANGE_STDOUT_ENVELOPE_RESERVE <= MAX_CHANGE_STDOUT_BYTES,
        p.authority.authority_digest == digest_of_authority(p.authority),
        p.authority.evidence_ref == p.evidence_object.reference,
        p.authority.coverage_document_ref == p.coverage_document_object.reference,
        p.authority.budgets == frozen_budgets(),
        p.authority.member_correspondence == p.evidence.member_correspondence,
        p.authority.validator_runtime == p.evidence.validator_runtime,
        request.budgets == frozen_budgets(),
        side_bound(before) == Ok::<ChangeSideAuthorityModel, ErrorModel>(p.authority.before),
        side_bound(after) == Ok::<ChangeSideAuthorityModel, ErrorModel>(p.authority.after),
{
    reveal(change_set_built);
    reveal(change_set_of);
    let scope = change_scoped(before, after, request)->Ok_0;
    let evidence = evidence_collected(before, after, scope, request)->Ok_0;
    rows_match_targets(before, after, scope, request, evidence);
    assert(request.budgets == frozen_budgets() && side_bound(before) == Ok::<
        ChangeSideAuthorityModel,
        ErrorModel,
    >(scope.before) && side_bound(after) == Ok::<ChangeSideAuthorityModel, ErrorModel>(
        scope.after,
    )) by {
        reveal(change_scoped);
    }
    assert(evidence.before == scope.before && evidence.after == scope.after) by {
        reveal(evidence_collected);
    }
    let evidence_ref = reference_to(
        KOTLIN_CHANGE_COVERAGE_EVIDENCE_SCHEMA@,
        evidence_bytes_of(evidence),
    );
    let (closure, bytes) = change_closed(
        before,
        after,
        document_ref_of(evidence.coverage_document),
        evidence_ref,
        request.budgets,
    )->Ok_0;
    trimming_keeps_the_rest(
        authority_drafted(evidence, request.budgets, evidence_ref, closure, bytes),
    );
    let rows = evidence.validation_rows;
    all_covered(rows, rows.len());
    missing_counted(evidence.targets, rows, rows.len());
}

proof fn scope_of_scope(
    before: VerifiedChangeSideModel,
    after: VerifiedChangeSideModel,
    request: ThreadChangeSetRequestModel,
    again: ThreadChangeSetRequestModel,
    scope: ChangeScope,
)
    requires
        change_scoped(before, after, request) == Ok::<ChangeScope, ErrorModel>(scope),
        again.budgets == request.budgets,
        again.validator_runtime == request.validator_runtime,
        again.member_correspondence == scope.correspondence,
    ensures
        change_scoped(before, after, again) == Ok::<ChangeScope, ErrorModel>(scope),
{
    reveal(change_scoped);
    let given = request.member_correspondence;
    order::sorted_is_sorted::<MemberCorrespondence>(given);
    order::sorting_keeps_sorted::<MemberCorrespondence>(scope.correspondence);
    assert(scope.correspondence.len() == given.len()) by {
        broadcast use vstd::seq_lib::group_to_multiset_ensures;

        assert(scope.correspondence.to_multiset().len() == scope.correspondence.len());
        assert(given.to_multiset().len() == given.len());
    }
}

proof fn evidence_of_evidence(
    before: VerifiedChangeSideModel,
    after: VerifiedChangeSideModel,
    scope: ChangeScope,
    request: ThreadChangeSetRequestModel,
    again: ThreadChangeSetRequestModel,
    evidence: KotlinChangeCoverageEvidenceModel,
)
    requires
        evidence_collected(before, after, scope, request) == Ok::<
            KotlinChangeCoverageEvidenceModel,
            ErrorModel,
        >(evidence),
        again.budgets == request.budgets,
        again.validator_runtime == request.validator_runtime,
        again.coverage_document == document_bytes(evidence.coverage_document),
        again.document == Some(evidence.coverage_document),
    ensures
        evidence_collected(before, after, scope, again) == Ok::<
            KotlinChangeCoverageEvidenceModel,
            ErrorModel,
        >(evidence),
        evidence.validator_runtime == request.validator_runtime,
        evidence.member_correspondence == scope.correspondence,
{
    reveal(evidence_collected);
    document_normalization_is_idempotent(
        request.coverage_document.len(),
        request.document.unwrap(),
        request.budgets,
        evidence.coverage_document,
    );
}

/// What was built verifies between the same sides, where the bytes of its coverage
/// document hold that document.
pub proof fn built_change_set_verifies(
    before: VerifiedChangeSideModel,
    after: VerifiedChangeSideModel,
    request: ThreadChangeSetRequestModel,
    p: PreparedThreadChangeSetModel,
)
    requires
        change_set_built(before, after, request) == Ok::<PreparedThreadChangeSetModel, ErrorModel>(
            p,
        ),
    ensures
        change_set_verified(before, after, p, Some(p.coverage_document)) is Ok,
{
    published_change_set_is_honest(before, after, request, p);
    reveal(change_set_built);
    let scope = change_scoped(before, after, request)->Ok_0;
    let evidence = evidence_collected(before, after, scope, request)->Ok_0;
    assert(p.evidence == evidence) by {
        reveal(change_set_of);
    }
    let again = request_of(p, Some(p.coverage_document));
    assert(evidence.validator_runtime == request.validator_runtime
        && evidence.member_correspondence == scope.correspondence) by {
        reveal(evidence_collected);
    }
    scope_of_scope(before, after, request, again, scope);
    evidence_of_evidence(before, after, scope, request, again, evidence);
}

/// Whether an observation claims that a declaration was added, removed or joined or
/// left its overloads.
pub open spec fn claims_absence(o: KotlinChangeObservationModel) -> bool {
    o.code == KotlinChangeCode::KcdCallableAdded || o.code == KotlinChangeCode::KcdCallableRemoved
        || o.code == KotlinChangeCode::KcdOverloadSetChanged
}

/// Whether what was observed later claims no absence beyond what was observed
/// before.
pub open spec fn claims_no_more(
    before: Seq<KotlinChangeObservationModel>,
    after: Seq<KotlinChangeObservationModel>,
) -> bool {
    before.is_prefix_of(after) && forall|i: int|
        before.len() <= i < after.len() ==> !claims_absence(#[trigger] after[i])
}

proof fn part_claims_no_absence(
    start: Seq<KotlinChangeObservationModel>,
    observations: Seq<KotlinChangeObservationModel>,
    code: KotlinChangeCode,
    side: ImpactSide,
    before: ChangeDeclarationEvidenceModel,
    after: ChangeDeclarationEvidenceModel,
    differs: bool,
)
    requires
        claims_no_more(start, observations),
        code != KotlinChangeCode::KcdCallableAdded,
        code != KotlinChangeCode::KcdCallableRemoved,
        code != KotlinChangeCode::KcdOverloadSetChanged,
    ensures
        claims_no_more(
            start,
            added_if(observations, differs, observed(code, side, seq![before], seq![after])),
        ),
{
    reveal(observed);
}

proof fn parts_claim_no_absence(
    observations: Seq<KotlinChangeObservationModel>,
    side: ImpactSide,
    b: ChangeDeclarationEvidenceModel,
    a: ChangeDeclarationEvidenceModel,
)
    ensures
        claims_no_more(observations, parts_compared(observations, side, b, a)),
{
    assert forall|
        more: Seq<KotlinChangeObservationModel>,
        code: KotlinChangeCode,
        x: JsonModel,
        y: JsonModel,
    |
        claims_no_more(observations, more) && code != KotlinChangeCode::KcdCallableAdded && code
            != KotlinChangeCode::KcdCallableRemoved && code
            != KotlinChangeCode::KcdOverloadSetChanged implies claims_no_more(
        observations,
        #[trigger] part_compared(more, code, side, b, a, x, y),
    ) by {
        part_claims_no_absence(observations, more, code, side, b, a, x != y);
    }
    assert(claims_no_more(observations, observations));
    reveal(parts_compared);
}

proof fn pair_claims_no_absence(
    c: Compared,
    side: ImpactSide,
    before: ChangeDeclarationEvidenceModel,
    after: ChangeDeclarationEvidenceModel,
)
    ensures
        claims_no_more(c.observations, pair_compared(c, side, before, after).observations),
{
    reveal(pair_compared);
    parts_claim_no_absence(c.observations, side, before, after);
    part_claims_no_absence(
        c.observations,
        parts_compared(c.observations, side, before, after),
        KotlinChangeCode::KcdUnsupportedComparison,
        side,
        before,
        after,
        residue_of(before) != residue_of(after),
    );
}

proof fn matches_claim_no_absence(
    c: Compared,
    side: ImpactSide,
    before: Seq<ChangeDeclarationEvidenceModel>,
    after: Seq<ChangeDeclarationEvidenceModel>,
    i: int,
)
    requires
        0 <= i,
    ensures
        claims_no_more(
            c.observations,
            matches_compared(c, side, before, after, i).observations,
        ),
    decreases before.len() - i,
{
    if i < before.len() {
        match record_at::<ChangeDeclarationEvidence>(after, before[i].symbol_identity) {
            Some(other) => {
                let next = pair_compared(c, side, before[i], other);
                pair_claims_no_absence(c, side, before[i], other);
                matches_claim_no_absence(next, side, before, after, i + 1);
                let all = matches_compared(next, side, before, after, i + 1).observations;
                assert(c.observations.is_prefix_of(all));
                assert forall|k: int| c.observations.len() <= k < all.len() implies !claims_absence(
                    #[trigger] all[k],
                ) by {
                    if k < next.observations.len() {
                        assert(all[k] == next.observations[k]);
                    }
                }
            },
            None => {
                matches_claim_no_absence(c, side, before, after, i + 1);
            },
        }
    }
}

/// Where it is not known on both sides that what is not there is absent, comparing
/// the declarations of two lanes claims no addition, no removal and no change of
/// the overloads.
pub proof fn partial_absence_claims_nothing(
    c: Compared,
    side: ImpactSide,
    before: LaneDeclarationsModel,
    after: LaneDeclarationsModel,
)
    requires
        !before.absence_complete || !after.absence_complete,
    ensures
        match lanes_compared(c, side, before, after) {
            Ok(found) => claims_no_more(c.observations, found.observations),
            Err(_) => true,
        },
{
    if let Ok(b) = by_symbol(before.exact) {
        if let Ok(a) = by_symbol(after.exact) {
            let m = matches_compared(c, side, b, a, 0);
            matches_claim_no_absence(c, side, b, a, 0);
            let x = unmatched(b, a);
            let y = unmatched(a, b);
            let had = x.len() < b.len();
            let all = rest_compared(m, side, had, false, x, y).observations;
            assert(claims_no_more(m.observations, all)) by {
                if are_paired(had, x, y) {
                    pair_claims_no_absence(m, side, x[0], y[0]);
                } else {
                    reveal(observed);
                }
            }
            assert(c.observations.is_prefix_of(all));
            assert forall|k: int| c.observations.len() <= k < all.len() implies !claims_absence(
                #[trigger] all[k],
            ) by {
                if k < m.observations.len() {
                    assert(all[k] == m.observations[k]);
                }
            }
        }
    }
}

proof fn scopes_agree(
    before: VerifiedChangeSideModel,
    after: VerifiedChangeSideModel,
    one: ThreadChangeSetRequestModel,
    two: ThreadChangeSetRequestModel,
)
    requires
        change_scoped(before, after, one) is Ok,
        change_scoped(before, after, two) is Ok,
        one.member_correspondence == two.member_correspondence,
    ensures
        change_scoped(before, after, one) == change_scoped(before, after, two),
        one.budgets == two.budgets,
{
    reveal(change_scoped);
}

proof fn comparisons_agree(
    before: VerifiedChangeSideModel,
    after: VerifiedChangeSideModel,
    scope: ChangeScope,
    one: ThreadChangeSetRequestModel,
    two: ThreadChangeSetRequestModel,
    e: KotlinChangeCoverageEvidenceModel,
    f: KotlinChangeCoverageEvidenceModel,
)
    requires
        evidence_collected(before, after, scope, one) == Ok::<
            KotlinChangeCoverageEvidenceModel,
            ErrorModel,
        >(e),
        evidence_collected(before, after, scope, two) == Ok::<
            KotlinChangeCoverageEvidenceModel,
            ErrorModel,
        >(f),
        one.budgets == two.budgets,
    ensures
        e.comparison_digest == f.comparison_digest,
        e.observations == f.observations,
        e.obligations == f.obligations,
        e.targets == f.targets,
{
    reveal(evidence_collected);
}

proof fn change_sets_hold_their_evidence(
    before: VerifiedChangeSideModel,
    after: VerifiedChangeSideModel,
    evidence: KotlinChangeCoverageEvidenceModel,
    budgets: ChangeSetBudgetsModel,
    p: PreparedThreadChangeSetModel,
)
    requires
        change_set_of(before, after, evidence, budgets) == Ok::<
            PreparedThreadChangeSetModel,
            ErrorModel,
        >(p),
    ensures
        p.evidence == evidence,
        p.authority.comparison_digest == evidence.comparison_digest,
{
    reveal(change_set_of);
    let evidence_ref = reference_to(
        KOTLIN_CHANGE_COVERAGE_EVIDENCE_SCHEMA@,
        evidence_bytes_of(evidence),
    );
    let (closure, bytes) = change_closed(
        before,
        after,
        document_ref_of(evidence.coverage_document),
        evidence_ref,
        budgets,
    )->Ok_0;
    trimming_keeps_the_rest(authority_drafted(evidence, budgets, evidence_ref, closure, bytes));
}

/// What is compared does not depend on what covers it, nor on who validates it: two change
/// sets of the same members of the same sides have the same comparison, observations,
/// obligations and targets.
pub proof fn comparison_is_independent_of_coverage(
    before: VerifiedChangeSideModel,
    after: VerifiedChangeSideModel,
    one: ThreadChangeSetRequestModel,
    two: ThreadChangeSetRequestModel,
    p: PreparedThreadChangeSetModel,
    q: PreparedThreadChangeSetModel,
)
    requires
        change_set_built(before, after, one) == Ok::<PreparedThreadChangeSetModel, ErrorModel>(p),
        change_set_built(before, after, two) == Ok::<PreparedThreadChangeSetModel, ErrorModel>(q),
        one.member_correspondence == two.member_correspondence,
    ensures
        p.authority.comparison_digest == q.authority.comparison_digest,
        p.evidence.observations == q.evidence.observations,
        p.evidence.obligations == q.evidence.obligations,
        p.evidence.targets == q.evidence.targets,
{
    reveal(change_set_built);
    scopes_agree(before, after, one, two);
    let scope = change_scoped(before, after, one)->Ok_0;
    let e = evidence_collected(before, after, scope, one)->Ok_0;
    let f = evidence_collected(before, after, scope, two)->Ok_0;
    comparisons_agree(before, after, scope, one, two, e, f);
    change_sets_hold_their_evidence(before, after, e, one.budgets, p);
    change_sets_hold_their_evidence(before, after, f, two.budgets, q);
}

/// A change set that verifies is what its own request has between the sides: two that
/// verify and have one request are one change set, so nothing in it can be put in the
/// place of anything else.
pub proof fn verified_change_set_is_the_built_one(
    before: VerifiedChangeSideModel,
    after: VerifiedChangeSideModel,
    p: PreparedThreadChangeSetModel,
    other: PreparedThreadChangeSetModel,
    document: Option<KotlinChangeCoverageDocumentModel>,
)
    requires
        change_set_verified(before, after, p, document) is Ok,
        change_set_verified(before, after, other, document) is Ok,
    ensures
        change_set_built(before, after, request_of(p, document)) == Ok::<
            PreparedThreadChangeSetModel,
            ErrorModel,
        >(p),
        request_of(p, document) == request_of(other, document) ==> p == other,
{
}

proof fn ranks_tell_categories_apart(x: VerificationCategory, y: VerificationCategory)
    ensures
        VerificationCategory::parts(x) == VerificationCategory::parts(y) ==> x == y,
{
    if VerificationCategory::parts(x) == VerificationCategory::parts(y) {
        assert(VerificationCategory::parts(x)[0] == VerificationCategory::parts(y)[0]);
    }
}

proof fn digest_is_part_of_material(
    comparison_digest: Seq<char>,
    kind: CoverageTargetKind,
    categories: Seq<VerificationCategory>,
    subject: CoverageTargetSubjectModel,
)
    ensures
        target_material(comparison_digest, kind, categories, subject).get("comparisonDigest"@)
            == Some(JsonModel::Str(comparison_digest)),
{
    let key = "comparisonDigest"@;
    reveal_strlit("schema");
    reveal_strlit("comparisonDigest");
    reveal_strlit("targetKind");
    reveal_strlit("requiredCategories");
    reveal_strlit("subject");
    assert("targetKind"@.len() != key.len());
    assert("requiredCategories"@.len() != key.len());
    assert("subject"@.len() != key.len());
    let a = JsonModel::object();
    let v = JsonModel::Str("codeclew-kotlin-change-coverage-target/1.0"@);
    member_of_with(a, "schema"@, v, key);
    let b = a.with("schema"@, v);
    let c = b.with(key, JsonModel::Str(comparison_digest));
    member_of_with(b, key, JsonModel::Str(comparison_digest), key);
    let k = <CoverageTargetKind as Record>::json(kind);
    member_of_with(c, "targetKind"@, k, key);
    let d = c.with("targetKind"@, k);
    let r = <Vec<VerificationCategory> as Record>::json(categories);
    member_of_with(d, "requiredCategories"@, r, key);
    let e = d.with("requiredCategories"@, r);
    member_of_with(e, "subject"@, <CoverageTargetSubject as Record>::json(subject), key);
}

proof fn subject_is_plain(subject: CoverageTargetSubjectModel)
    ensures
        is_plain(<CoverageTargetSubject as Record>::json(subject)),
{
    let o = JsonModel::object();
    assert(is_plain(o));
    match subject {
        CoverageTargetSubjectModel::DeclaredMember {
            before_member_alias,
            after_member_alias,
            service_alias,
            role,
        } => {
            let a = <String as Record>::json(before_member_alias);
            let b = <String as Record>::json(after_member_alias);
            let c = <String as Record>::json(service_alias);
            let d = <ChangeMemberRole as Record>::json(role);
            let o1 = o.with("beforeMemberAlias"@, a);
            let o2 = o1.with("afterMemberAlias"@, b);
            let o3 = o2.with("serviceAlias"@, c);
            let o4 = o3.with("role"@, d);
            with_keeps_plain(o, "beforeMemberAlias"@, a);
            with_keeps_plain(o1, "afterMemberAlias"@, b);
            with_keeps_plain(o2, "serviceAlias"@, c);
            with_keeps_plain(o3, "role"@, d);
            with_keeps_plain(o4, "kind"@, JsonModel::Str("DECLARED_MEMBER"@));
        },
        CoverageTargetSubjectModel::Observation { observation_id, code, side } => {
            let a = <String as Record>::json(observation_id);
            let b = <KotlinChangeCode as Record>::json(code);
            let c = <ImpactSide as Record>::json(side);
            let o1 = o.with("observationId"@, a);
            let o2 = o1.with("code"@, b);
            let o3 = o2.with("side"@, c);
            with_keeps_plain(o, "observationId"@, a);
            with_keeps_plain(o1, "code"@, b);
            with_keeps_plain(o2, "side"@, c);
            with_keeps_plain(o3, "kind"@, JsonModel::Str("OBSERVATION"@));
        },
        CoverageTargetSubjectModel::Obligation { obligation_id, phase } => {
            let a = <String as Record>::json(obligation_id);
            let b = <ChangeObligationPhase as Record>::json(phase);
            let o1 = o.with("obligationId"@, a);
            let o2 = o1.with("phase"@, b);
            with_keeps_plain(o, "obligationId"@, a);
            with_keeps_plain(o1, "phase"@, b);
            with_keeps_plain(o2, "kind"@, JsonModel::Str("OBLIGATION"@));
        },
    }
}

proof fn material_is_plain(
    comparison_digest: Seq<char>,
    kind: CoverageTargetKind,
    categories: Seq<VerificationCategory>,
    subject: CoverageTargetSubjectModel,
)
    ensures
        is_plain(target_material(comparison_digest, kind, categories, subject)),
{
    let o = JsonModel::object();
    assert(is_plain(o));
    let a = JsonModel::Str("codeclew-kotlin-change-coverage-target/1.0"@);
    let b = JsonModel::Str(comparison_digest);
    let c = <CoverageTargetKind as Record>::json(kind);
    let d = <Vec<VerificationCategory> as Record>::json(categories);
    let e = <CoverageTargetSubject as Record>::json(subject);
    let rows = d->Arr_0;
    assert forall|i: int| 0 <= i < rows.len() implies is_plain(#[trigger] rows[i]) by {
        assert(rows[i] == <VerificationCategory as Record>::json(categories[i]));
    }
    assert(is_plain(d));
    subject_is_plain(subject);
    let o1 = o.with("schema"@, a);
    let o2 = o1.with("comparisonDigest"@, b);
    let o3 = o2.with("targetKind"@, c);
    let o4 = o3.with("requiredCategories"@, d);
    with_keeps_plain(o, "schema"@, a);
    with_keeps_plain(o1, "comparisonDigest"@, b);
    with_keeps_plain(o2, "targetKind"@, c);
    with_keeps_plain(o3, "requiredCategories"@, d);
    with_keeps_plain(o4, "subject"@, e);
}

/// The categories of a target are a set: their order and repetition make no difference, and
/// they stand in it in order, each once. Its identity is the digest of bytes that name the
/// comparison: under two comparisons they differ, so that it has the same identity only where
/// two different byte strings have the same digest.
pub proof fn categories_are_a_set(
    comparison_digest: Seq<char>,
    other_digest: Seq<char>,
    kind: CoverageTargetKind,
    categories: Seq<VerificationCategory>,
    others: Seq<VerificationCategory>,
    subject: CoverageTargetSubjectModel,
)
    requires
        forall|x: VerificationCategory| categories.contains(x) <==> #[trigger] others.contains(x),
    ensures
        ({
            let x = target_of(comparison_digest, kind, categories, subject);
            let y = target_of(other_digest, kind, others, subject);
            &&& x.required_categories == y.required_categories
            &&& order::is_table::<VerificationCategory>(x.required_categories)
            &&& forall|c: VerificationCategory|
                categories.contains(c) <==> #[trigger] x.required_categories.contains(c)
            &&& comparison_digest == other_digest ==> x == y
            &&& x.target_id == json_digest(
                target_material(comparison_digest, kind, x.required_categories, subject),
            )
            &&& comparison_digest != other_digest ==> canonical_bytes(
                target_material(comparison_digest, kind, x.required_categories, subject),
            ) != canonical_bytes(
                target_material(other_digest, kind, y.required_categories, subject),
            )
        }),
{
    reveal(target_of);
    assert forall|x: VerificationCategory, y: VerificationCategory| #[trigger]
        VerificationCategory::parts(x) == #[trigger] VerificationCategory::parts(y) implies x
        == y by {
        ranks_tell_categories_apart(x, y);
    }
    order::tables_of_the_same_records::<VerificationCategory>(categories, others);
    let required = order::first_table::<VerificationCategory>(categories);
    digest_is_part_of_material(comparison_digest, kind, required, subject);
    digest_is_part_of_material(other_digest, kind, required, subject);
    material_is_plain(comparison_digest, kind, required, subject);
    material_is_plain(other_digest, kind, required, subject);
    let a = target_material(comparison_digest, kind, required, subject);
    let b = target_material(other_digest, kind, required, subject);
    if canonical_bytes(a) == canonical_bytes(b) {
        canonical_bytes_tell_values_apart(a, b);
    }
}

proof fn rows_are_part_of_rules(rules: KotlinChangeRulesModel)
    ensures
        <KotlinChangeRules as Record>::json(rules).get("rows"@) == Some(
            <Vec<KotlinChangeRule> as Record>::json(rules.rows),
        ),
{
    let key = "rows"@;
    reveal_strlit("schema");
    reveal_strlit("rows");
    reveal_strlit("verdictSemantics");
    assert("verdictSemantics"@.len() != key.len());
    let a = JsonModel::object();
    let s = <String as Record>::json(rules.schema);
    member_of_with(a, "schema"@, s, key);
    let b = a.with("schema"@, s);
    let r = <Vec<KotlinChangeRule> as Record>::json(rules.rows);
    member_of_with(b, key, r, key);
    member_of_with(
        b.with(key, r),
        "verdictSemantics"@,
        <ChangeRuleSemantics as Record>::json(rules.verdict_semantics),
        key,
    );
}

proof fn output_is_part_of_rule(rule: KotlinChangeRuleModel)
    ensures
        <KotlinChangeRule as Record>::json(rule).get("output"@) == Some(
            <KotlinChangeCode as Record>::json(rule.output),
        ),
{
    let key = "output"@;
    reveal_strlit("input");
    reveal_strlit("output");
    reveal_strlit("semantics");
    assert("semantics"@.len() != key.len());
    let a = JsonModel::object();
    let i = <ChangeRuleInput as Record>::json(rule.input);
    member_of_with(a, "input"@, i, key);
    let b = a.with("input"@, i);
    let o = <KotlinChangeCode as Record>::json(rule.output);
    member_of_with(b, key, o, key);
    member_of_with(
        b.with(key, o),
        "semantics"@,
        <ChangeRuleSemantics as Record>::json(rule.semantics),
        key,
    );
}

proof fn rule_is_plain(rule: KotlinChangeRuleModel)
    ensures
        is_plain(<KotlinChangeRule as Record>::json(rule)),
{
    let o = JsonModel::object();
    assert(is_plain(o));
    let a = <ChangeRuleInput as Record>::json(rule.input);
    let b = <KotlinChangeCode as Record>::json(rule.output);
    let c = <ChangeRuleSemantics as Record>::json(rule.semantics);
    let o1 = o.with("input"@, a);
    let o2 = o1.with("output"@, b);
    with_keeps_plain(o, "input"@, a);
    with_keeps_plain(o1, "output"@, b);
    with_keeps_plain(o2, "semantics"@, c);
}

proof fn rules_are_plain(rules: KotlinChangeRulesModel)
    ensures
        is_plain(<KotlinChangeRules as Record>::json(rules)),
{
    let o = JsonModel::object();
    assert(is_plain(o));
    let a = <String as Record>::json(rules.schema);
    let b = <Vec<KotlinChangeRule> as Record>::json(rules.rows);
    let c = <ChangeRuleSemantics as Record>::json(rules.verdict_semantics);
    let rows = b->Arr_0;
    assert forall|i: int| 0 <= i < rows.len() implies is_plain(#[trigger] rows[i]) by {
        assert(rows[i] == <KotlinChangeRule as Record>::json(rules.rows[i]));
        rule_is_plain(rules.rows[i]);
    }
    assert(is_plain(b));
    let o1 = o.with("schema"@, a);
    let o2 = o1.with("rows"@, b);
    with_keeps_plain(o, "schema"@, a);
    with_keeps_plain(o1, "rows"@, b);
    with_keeps_plain(o2, "verdictSemantics"@, c);
}

proof fn names_tell_codes_apart(a: KotlinChangeCode, b: KotlinChangeCode)
    requires
        a.name() == b.name(),
    ensures
        a == b,
{
    reveal_strlit("KCD_CALLABLE_ADDED");
    reveal_strlit("KCD_CALLABLE_REMOVED");
    reveal_strlit("KCD_OVERLOAD_SET_CHANGED");
    reveal_strlit("KCD_JVM_DESCRIPTOR_CHANGED");
    reveal_strlit("KCD_PARAMETER_TYPES_CHANGED");
    reveal_strlit("KCD_RETURN_TYPE_CHANGED");
    reveal_strlit("KCD_RECEIVER_TYPE_CHANGED");
    reveal_strlit("KCD_NULLABILITY_CHANGED");
    reveal_strlit("KCD_TYPE_PARAMETER_BOUNDS_CHANGED");
    reveal_strlit("KCD_VISIBILITY_CHANGED");
    reveal_strlit("KCD_MODALITY_CHANGED");
    reveal_strlit("KCD_OVERRIDE_STATUS_CHANGED");
    reveal_strlit("KCD_UNSUPPORTED_COMPARISON");
    assert("KCD_CALLABLE_ADDED"@.len() == 18);
    assert("KCD_CALLABLE_REMOVED"@.len() == 20);
    assert("KCD_OVERLOAD_SET_CHANGED"@.len() == 24);
    assert("KCD_JVM_DESCRIPTOR_CHANGED"@.len() == 26);
    assert("KCD_PARAMETER_TYPES_CHANGED"@.len() == 27);
    assert("KCD_RETURN_TYPE_CHANGED"@.len() == 23);
    assert("KCD_RECEIVER_TYPE_CHANGED"@.len() == 25);
    assert("KCD_NULLABILITY_CHANGED"@.len() == 23);
    assert("KCD_TYPE_PARAMETER_BOUNDS_CHANGED"@.len() == 33);
    assert("KCD_VISIBILITY_CHANGED"@.len() == 22);
    assert("KCD_MODALITY_CHANGED"@.len() == 20);
    assert("KCD_OVERRIDE_STATUS_CHANGED"@.len() == 27);
    assert("KCD_UNSUPPORTED_COMPARISON"@.len() == 26);
    assert("KCD_CALLABLE_REMOVED"@[4] == 'C');
    assert("KCD_MODALITY_CHANGED"@[4] == 'M');
    assert("KCD_JVM_DESCRIPTOR_CHANGED"@[4] == 'J');
    assert("KCD_UNSUPPORTED_COMPARISON"@[4] == 'U');
    assert("KCD_PARAMETER_TYPES_CHANGED"@[4] == 'P');
    assert("KCD_OVERRIDE_STATUS_CHANGED"@[4] == 'O');
    assert("KCD_RETURN_TYPE_CHANGED"@[4] == 'R');
    assert("KCD_NULLABILITY_CHANGED"@[4] == 'N');
}

/// The code that each rule gives is part of the bytes that the digest of the rules is taken
/// of: rules with the same bytes have as many rows, with the same codes. So rules with other
/// codes have the same digest only where two different byte strings have the same digest.
pub proof fn codes_are_part_of_the_rules(a: KotlinChangeRulesModel, b: KotlinChangeRulesModel)
    requires
        canonical_bytes(<KotlinChangeRules as Record>::json(a)) == canonical_bytes(
            <KotlinChangeRules as Record>::json(b),
        ),
    ensures
        a.rows.len() == b.rows.len(),
        forall|i: int|
            0 <= i < a.rows.len() ==> (#[trigger] a.rows[i]).output == b.rows[i].output,
{
    rules_are_plain(a);
    rules_are_plain(b);
    canonical_bytes_tell_values_apart(
        <KotlinChangeRules as Record>::json(a),
        <KotlinChangeRules as Record>::json(b),
    );
    rows_are_part_of_rules(a);
    rows_are_part_of_rules(b);
    let x = <Vec<KotlinChangeRule> as Record>::json(a.rows)->Arr_0;
    let y = <Vec<KotlinChangeRule> as Record>::json(b.rows)->Arr_0;
    assert(x == y);
    assert(x.len() == a.rows.len() && y.len() == b.rows.len());
    assert forall|i: int| 0 <= i < a.rows.len() implies (#[trigger] a.rows[i]).output
        == b.rows[i].output by {
        assert(x[i] == <KotlinChangeRule as Record>::json(a.rows[i]));
        assert(y[i] == <KotlinChangeRule as Record>::json(b.rows[i]));
        output_is_part_of_rule(a.rows[i]);
        output_is_part_of_rule(b.rows[i]);
        names_tell_codes_apart(a.rows[i].output, b.rows[i].output);
    }
}

} // verus!
