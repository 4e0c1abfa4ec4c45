//! Facts about callables, as a verified fact set retains them.

use vstd::prelude::*;
use vstd::string::*;

use crate::cas::{CasObject, CasObjectModel};
use crate::json::{Json, JsonModel};
use crate::record::Record;
use crate::table::Keyed;
use crate::text::{copy_bytes, same_bytes};

verus! {

/// What a relationship between two members rests on.
#[derive(Clone, Copy, Debug, PartialEq, Eq, Structural)]
pub enum RelationshipAuthority {
    DeclaredTopology,
    VerifiedSameSnapshotCompilationDependency,
    Unproven,
}

impl DeepView for RelationshipAuthority {
    type V = RelationshipAuthority;

    open spec fn deep_view(&self) -> RelationshipAuthority {
        *self
    }
}

impl RelationshipAuthority {
    /// The name that is written for a value.
    pub open spec fn name(self) -> Seq<char> {
        match self {
            RelationshipAuthority::DeclaredTopology => "DECLARED_TOPOLOGY"@,
            RelationshipAuthority::VerifiedSameSnapshotCompilationDependency => "VERIFIED_SAME_SNAPSHOT_COMPILATION_DEPENDENCY"@,
            RelationshipAuthority::Unproven => "UNPROVEN"@,
        }
    }
}

impl Record for RelationshipAuthority {
    open spec fn json(v: RelationshipAuthority) -> JsonModel {
        JsonModel::Str(v.name())
    }

    fn copied(&self) -> (r: RelationshipAuthority) {
        *self
    }

    fn same_as(&self, other: &RelationshipAuthority) -> (r: bool) {
        *self == *other
    }

    fn to_json(&self) -> (r: Json) {
        let name = match self {
            RelationshipAuthority::DeclaredTopology => "DECLARED_TOPOLOGY",
            RelationshipAuthority::VerifiedSameSnapshotCompilationDependency => "VERIFIED_SAME_SNAPSHOT_COMPILATION_DEPENDENCY",
            RelationshipAuthority::Unproven => "UNPROVEN",
        };
        Json::Str(name.to_owned())
    }
}

/// How far the target of a use is resolved.
#[derive(Clone, Copy, Debug, PartialEq, Eq, Structural)]
pub enum TargetResolution {
    ExactSymbol,
    CallableFamily,
    Unresolved,
}

impl DeepView for TargetResolution {
    type V = TargetResolution;

    open spec fn deep_view(&self) -> TargetResolution {
        *self
    }
}

impl TargetResolution {
    /// The name that is written for a value.
    pub open spec fn name(self) -> Seq<char> {
        match self {
            TargetResolution::ExactSymbol => "EXACT_SYMBOL"@,
            TargetResolution::CallableFamily => "CALLABLE_FAMILY"@,
            TargetResolution::Unresolved => "UNRESOLVED"@,
        }
    }
}

impl Record for TargetResolution {
    open spec fn json(v: TargetResolution) -> JsonModel {
        JsonModel::Str(v.name())
    }

    fn copied(&self) -> (r: TargetResolution) {
        *self
    }

    fn same_as(&self, other: &TargetResolution) -> (r: bool) {
        *self == *other
    }

    fn to_json(&self) -> (r: Json) {
        let name = match self {
            TargetResolution::ExactSymbol => "EXACT_SYMBOL",
            TargetResolution::CallableFamily => "CALLABLE_FAMILY",
            TargetResolution::Unresolved => "UNRESOLVED",
        };
        Json::Str(name.to_owned())
    }
}

/// How certain a fact set is.
#[derive(Clone, Copy, Debug, PartialEq, Eq, Structural)]
pub enum CallableFactSetCertainty {
    Verified,
    Unsure,
}

impl DeepView for CallableFactSetCertainty {
    type V = CallableFactSetCertainty;

    open spec fn deep_view(&self) -> CallableFactSetCertainty {
        *self
    }
}

impl CallableFactSetCertainty {
    /// The name that is written for a value.
    pub open spec fn name(self) -> Seq<char> {
        match self {
            CallableFactSetCertainty::Verified => "VERIFIED"@,
            CallableFactSetCertainty::Unsure => "UNSURE"@,
        }
    }
}

impl Record for CallableFactSetCertainty {
    open spec fn json(v: CallableFactSetCertainty) -> JsonModel {
        JsonModel::Str(v.name())
    }

    fn copied(&self) -> (r: CallableFactSetCertainty) {
        *self
    }

    fn same_as(&self, other: &CallableFactSetCertainty) -> (r: bool) {
        *self == *other
    }

    fn to_json(&self) -> (r: Json) {
        let name = match self {
            CallableFactSetCertainty::Verified => "VERIFIED",
            CallableFactSetCertainty::Unsure => "UNSURE",
        };
        Json::Str(name.to_owned())
    }
}

/// How much of its scope a fact set covers.
#[derive(Clone, Copy, Debug, PartialEq, Eq, Structural)]
pub enum CallableFactSetCoverage {
    Complete,
    Partial,
}

impl DeepView for CallableFactSetCoverage {
    type V = CallableFactSetCoverage;

    open spec fn deep_view(&self) -> CallableFactSetCoverage {
        *self
    }
}

impl CallableFactSetCoverage {
    /// The name that is written for a value.
    pub open spec fn name(self) -> Seq<char> {
        match self {
            CallableFactSetCoverage::Complete => "COMPLETE"@,
            CallableFactSetCoverage::Partial => "PARTIAL"@,
        }
    }
}

impl Record for CallableFactSetCoverage {
    open spec fn json(v: CallableFactSetCoverage) -> JsonModel {
        JsonModel::Str(v.name())
    }

    fn copied(&self) -> (r: CallableFactSetCoverage) {
        *self
    }

    fn same_as(&self, other: &CallableFactSetCoverage) -> (r: bool) {
        *self == *other
    }

    fn to_json(&self) -> (r: Json) {
        let name = match self {
            CallableFactSetCoverage::Complete => "COMPLETE",
            CallableFactSetCoverage::Partial => "PARTIAL",
        };
        Json::Str(name.to_owned())
    }
}

/// How much of a compilation the compiler covered.
#[derive(Clone, Copy, Debug, PartialEq, Eq, Structural)]
pub enum GraphCoverage {
    CompleteSupportedSubset,
    Partial,
}

impl DeepView for GraphCoverage {
    type V = GraphCoverage;

    open spec fn deep_view(&self) -> GraphCoverage {
        *self
    }
}

impl GraphCoverage {
    /// The name that is written for a value.
    pub open spec fn name(self) -> Seq<char> {
        match self {
            GraphCoverage::CompleteSupportedSubset => "COMPLETE_SUPPORTED_SUBSET"@,
            GraphCoverage::Partial => "PARTIAL"@,
        }
    }
}

impl Record for GraphCoverage {
    open spec fn json(v: GraphCoverage) -> JsonModel {
        JsonModel::Str(v.name())
    }

    fn copied(&self) -> (r: GraphCoverage) {
        *self
    }

    fn same_as(&self, other: &GraphCoverage) -> (r: bool) {
        *self == *other
    }

    fn to_json(&self) -> (r: Json) {
        let name = match self {
            GraphCoverage::CompleteSupportedSubset => "COMPLETE_SUPPORTED_SUBSET",
            GraphCoverage::Partial => "PARTIAL",
        };
        Json::Str(name.to_owned())
    }
}

/// The kind of a fact.
#[derive(Clone, Copy, Debug, PartialEq, Eq, Structural)]
pub enum CallableFactKind {
    Declaration,
    Use,
    Boundary,
}

impl DeepView for CallableFactKind {
    type V = CallableFactKind;

    open spec fn deep_view(&self) -> CallableFactKind {
        *self
    }
}

impl CallableFactKind {
    /// The name that is written for a value.
    pub open spec fn name(self) -> Seq<char> {
        match self {
            CallableFactKind::Declaration => "DECLARATION"@,
            CallableFactKind::Use => "USE"@,
            CallableFactKind::Boundary => "BOUNDARY"@,
        }
    }
}

impl Record for CallableFactKind {
    open spec fn json(v: CallableFactKind) -> JsonModel {
        JsonModel::Str(v.name())
    }

    fn copied(&self) -> (r: CallableFactKind) {
        *self
    }

    fn same_as(&self, other: &CallableFactKind) -> (r: bool) {
        *self == *other
    }

    fn to_json(&self) -> (r: Json) {
        let name = match self {
            CallableFactKind::Declaration => "DECLARATION",
            CallableFactKind::Use => "USE",
            CallableFactKind::Boundary => "BOUNDARY",
        };
        Json::Str(name.to_owned())
    }
}

impl CallableFactKind {
    /// The place of a value in the order of the values.
    pub open spec fn rank(self) -> u64 {
        match self {
            CallableFactKind::Declaration => 0,
            CallableFactKind::Use => 1,
            CallableFactKind::Boundary => 2,
        }
    }

    pub(crate) fn to_rank(self) -> (r: u64)
        ensures
            r == self.rank(),
    {
        match self {
            CallableFactKind::Declaration => 0,
            CallableFactKind::Use => 1,
            CallableFactKind::Boundary => 2,
        }
    }
}

/// The kind of a declaration.
#[derive(Clone, Copy, Debug, PartialEq, Eq, Structural)]
pub enum DeclarationKind {
    Class,
    Constructor,
    Function,
    Property,
    EnumEntry,
    TypeAlias,
}

impl DeepView for DeclarationKind {
    type V = DeclarationKind;

    open spec fn deep_view(&self) -> DeclarationKind {
        *self
    }
}

impl DeclarationKind {
    /// The name that is written for a value.
    pub open spec fn name(self) -> Seq<char> {
        match self {
            DeclarationKind::Class => "CLASS"@,
            DeclarationKind::Constructor => "CONSTRUCTOR"@,
            DeclarationKind::Function => "FUNCTION"@,
            DeclarationKind::Property => "PROPERTY"@,
            DeclarationKind::EnumEntry => "ENUM_ENTRY"@,
            DeclarationKind::TypeAlias => "TYPE_ALIAS"@,
        }
    }
}

impl Record for DeclarationKind {
    open spec fn json(v: DeclarationKind) -> JsonModel {
        JsonModel::Str(v.name())
    }

    fn copied(&self) -> (r: DeclarationKind) {
        *self
    }

    fn same_as(&self, other: &DeclarationKind) -> (r: bool) {
        *self == *other
    }

    fn to_json(&self) -> (r: Json) {
        let name = match self {
            DeclarationKind::Class => "CLASS",
            DeclarationKind::Constructor => "CONSTRUCTOR",
            DeclarationKind::Function => "FUNCTION",
            DeclarationKind::Property => "PROPERTY",
            DeclarationKind::EnumEntry => "ENUM_ENTRY",
            DeclarationKind::TypeAlias => "TYPE_ALIAS",
        };
        Json::Str(name.to_owned())
    }
}

/// A place in a source file.
#[derive(Debug, PartialEq, Eq)]
pub struct SourceAnchor {
    pub path: String,
    pub content_ref: CasObject,
    pub start: Option<u64>,
    pub end: Option<u64>,
}

/// The model of a [`SourceAnchor`].
pub struct SourceAnchorModel {
    pub path: Seq<char>,
    pub content_ref: CasObjectModel,
    pub start: Option<u64>,
    pub end: Option<u64>,
}

impl DeepView for SourceAnchor {
    type V = SourceAnchorModel;

    open spec fn deep_view(&self) -> SourceAnchorModel {
        SourceAnchorModel {
            path: self.path.deep_view(),
            content_ref: self.content_ref.deep_view(),
            start: self.start.deep_view(),
            end: self.end.deep_view(),
        }
    }
}

impl Record for SourceAnchor {
    open spec fn json(v: SourceAnchorModel) -> JsonModel {
        JsonModel::object()
            .with("path"@, <String as Record>::json(v.path))
            .with("contentRef"@, <CasObject as Record>::json(v.content_ref))
            .with_some("start"@, match v.start { Some(x) => Some(<u64 as Record>::json(x)), None => None })
            .with_some("end"@, match v.end { Some(x) => Some(<u64 as Record>::json(x)), None => None })
    }

    fn copied(&self) -> (r: SourceAnchor) {
        SourceAnchor {
            path: self.path.copied(),
            content_ref: self.content_ref.copied(),
            start: self.start.copied(),
            end: self.end.copied(),
        }
    }

    fn same_as(&self, other: &SourceAnchor) -> (r: bool) {
        self.path.same_as(&other.path)
            && self.content_ref.same_as(&other.content_ref)
            && self.start.same_as(&other.start)
            && self.end.same_as(&other.end)
    }

    fn to_json(&self) -> (r: Json) {
        Json::object()
            .with("path", self.path.to_json())
            .with("contentRef", self.content_ref.to_json())
            .with_some("start", match &self.start { Some(x) => Some(x.to_json()), None => None })
            .with_some("end", match &self.end { Some(x) => Some(x.to_json()), None => None })
    }
}

/// Where a fact comes from.
#[derive(Debug, PartialEq, Eq)]
pub struct CallableFactProvenance {
    pub member_alias: String,
    pub repository_namespace: String,
    pub compilation_id: String,
    pub generation_ref: CasObject,
    pub input_fact_key: String,
    pub input_payload_ref: CasObject,
    pub source: Option<SourceAnchor>,
}

/// The model of a [`CallableFactProvenance`].
pub struct CallableFactProvenanceModel {
    pub member_alias: Seq<char>,
    pub repository_namespace: Seq<char>,
    pub compilation_id: Seq<char>,
    pub generation_ref: CasObjectModel,
    pub input_fact_key: Seq<char>,
    pub input_payload_ref: CasObjectModel,
    pub source: Option<SourceAnchorModel>,
}

impl DeepView for CallableFactProvenance {
    type V = CallableFactProvenanceModel;

    open spec fn deep_view(&self) -> CallableFactProvenanceModel {
        CallableFactProvenanceModel {
            member_alias: self.member_alias.deep_view(),
            repository_namespace: self.repository_namespace.deep_view(),
            compilation_id: self.compilation_id.deep_view(),
            generation_ref: self.generation_ref.deep_view(),
            input_fact_key: self.input_fact_key.deep_view(),
            input_payload_ref: self.input_payload_ref.deep_view(),
            source: self.source.deep_view(),
        }
    }
}

impl Record for CallableFactProvenance {
    open spec fn json(v: CallableFactProvenanceModel) -> JsonModel {
        JsonModel::object()
            .with("memberAlias"@, <String as Record>::json(v.member_alias))
            .with("repositoryNamespace"@, <String as Record>::json(v.repository_namespace))
            .with("compilationId"@, <String as Record>::json(v.compilation_id))
            .with("generationRef"@, <CasObject as Record>::json(v.generation_ref))
            .with("inputFactKey"@, <String as Record>::json(v.input_fact_key))
            .with("inputPayloadRef"@, <CasObject as Record>::json(v.input_payload_ref))
            .with_some("source"@, match v.source { Some(x) => Some(<SourceAnchor as Record>::json(x)), None => None })
    }

    fn copied(&self) -> (r: CallableFactProvenance) {
        CallableFactProvenance {
            member_alias: self.member_alias.copied(),
            repository_namespace: self.repository_namespace.copied(),
            compilation_id: self.compilation_id.copied(),
            generation_ref: self.generation_ref.copied(),
            input_fact_key: self.input_fact_key.copied(),
            input_payload_ref: self.input_payload_ref.copied(),
            source: self.source.copied(),
        }
    }

    fn same_as(&self, other: &CallableFactProvenance) -> (r: bool) {
        self.member_alias.same_as(&other.member_alias)
            && self.repository_namespace.same_as(&other.repository_namespace)
            && self.compilation_id.same_as(&other.compilation_id)
            && self.generation_ref.same_as(&other.generation_ref)
            && self.input_fact_key.same_as(&other.input_fact_key)
            && self.input_payload_ref.same_as(&other.input_payload_ref)
            && self.source.same_as(&other.source)
    }

    fn to_json(&self) -> (r: Json) {
        Json::object()
            .with("memberAlias", self.member_alias.to_json())
            .with("repositoryNamespace", self.repository_namespace.to_json())
            .with("compilationId", self.compilation_id.to_json())
            .with("generationRef", self.generation_ref.to_json())
            .with("inputFactKey", self.input_fact_key.to_json())
            .with("inputPayloadRef", self.input_payload_ref.to_json())
            .with_some("source", match &self.source { Some(x) => Some(x.to_json()), None => None })
    }
}

/// The declaration of a callable or of its class.
#[derive(Debug, PartialEq, Eq)]
pub struct DeclarationFact {
    pub fact_id: String,
    pub provenance: CallableFactProvenance,
    pub declaration_kind: DeclarationKind,
    pub symbol_identity: String,
    pub owner_identity: String,
    pub containment: Vec<String>,
    pub compiler_callable_id: Option<String>,
    pub compiler_class_id: Option<String>,
    pub exact_eligible: bool,
    pub shape_digest: Option<String>,
    pub projected_shape: Json,
}

/// The model of a [`DeclarationFact`].
pub struct DeclarationFactModel {
    pub fact_id: Seq<char>,
    pub provenance: CallableFactProvenanceModel,
    pub declaration_kind: DeclarationKind,
    pub symbol_identity: Seq<char>,
    pub owner_identity: Seq<char>,
    pub containment: Seq<Seq<char>>,
    pub compiler_callable_id: Option<Seq<char>>,
    pub compiler_class_id: Option<Seq<char>>,
    pub exact_eligible: bool,
    pub shape_digest: Option<Seq<char>>,
    pub projected_shape: JsonModel,
}

impl DeepView for DeclarationFact {
    type V = DeclarationFactModel;

    open spec fn deep_view(&self) -> DeclarationFactModel {
        DeclarationFactModel {
            fact_id: self.fact_id.deep_view(),
            provenance: self.provenance.deep_view(),
            declaration_kind: self.declaration_kind.deep_view(),
            symbol_identity: self.symbol_identity.deep_view(),
            owner_identity: self.owner_identity.deep_view(),
            containment: self.containment.deep_view(),
            compiler_callable_id: self.compiler_callable_id.deep_view(),
            compiler_class_id: self.compiler_class_id.deep_view(),
            exact_eligible: self.exact_eligible.deep_view(),
            shape_digest: self.shape_digest.deep_view(),
            projected_shape: self.projected_shape.deep_view(),
        }
    }
}

impl Record for DeclarationFact {
    open spec fn json(v: DeclarationFactModel) -> JsonModel {
        JsonModel::object()
            .with("factId"@, <String as Record>::json(v.fact_id))
            .with("provenance"@, <CallableFactProvenance as Record>::json(v.provenance))
            .with("declarationKind"@, <DeclarationKind as Record>::json(v.declaration_kind))
            .with("symbolIdentity"@, <String as Record>::json(v.symbol_identity))
            .with("ownerIdentity"@, <String as Record>::json(v.owner_identity))
            .with("containment"@, <Vec<String> as Record>::json(v.containment))
            .with_some("compilerCallableId"@, match v.compiler_callable_id { Some(x) => Some(<String as Record>::json(x)), None => None })
            .with_some("compilerClassId"@, match v.compiler_class_id { Some(x) => Some(<String as Record>::json(x)), None => None })
            .with("exactEligible"@, <bool as Record>::json(v.exact_eligible))
            .with_some("shapeDigest"@, match v.shape_digest { Some(x) => Some(<String as Record>::json(x)), None => None })
            .with("projectedShape"@, <Json as Record>::json(v.projected_shape))
    }

    fn copied(&self) -> (r: DeclarationFact) {
        DeclarationFact {
            fact_id: self.fact_id.copied(),
            provenance: self.provenance.copied(),
            declaration_kind: self.declaration_kind.copied(),
            symbol_identity: self.symbol_identity.copied(),
            owner_identity: self.owner_identity.copied(),
            containment: self.containment.copied(),
            compiler_callable_id: self.compiler_callable_id.copied(),
            compiler_class_id: self.compiler_class_id.copied(),
            exact_eligible: self.exact_eligible.copied(),
            shape_digest: self.shape_digest.copied(),
            projected_shape: self.projected_shape.copied(),
        }
    }

    fn same_as(&self, other: &DeclarationFact) -> (r: bool) {
        self.fact_id.same_as(&other.fact_id)
            && self.provenance.same_as(&other.provenance)
            && self.declaration_kind.same_as(&other.declaration_kind)
            && self.symbol_identity.same_as(&other.symbol_identity)
            && self.owner_identity.same_as(&other.owner_identity)
            && self.containment.same_as(&other.containment)
            && self.compiler_callable_id.same_as(&other.compiler_callable_id)
            && self.compiler_class_id.same_as(&other.compiler_class_id)
            && self.exact_eligible.same_as(&other.exact_eligible)
            && self.shape_digest.same_as(&other.shape_digest)
            && self.projected_shape.same_as(&other.projected_shape)
    }

    fn to_json(&self) -> (r: Json) {
        Json::object()
            .with("factId", self.fact_id.to_json())
            .with("provenance", self.provenance.to_json())
            .with("declarationKind", self.declaration_kind.to_json())
            .with("symbolIdentity", self.symbol_identity.to_json())
            .with("ownerIdentity", self.owner_identity.to_json())
            .with("containment", self.containment.to_json())
            .with_some("compilerCallableId", match &self.compiler_callable_id { Some(x) => Some(x.to_json()), None => None })
            .with_some("compilerClassId", match &self.compiler_class_id { Some(x) => Some(x.to_json()), None => None })
            .with("exactEligible", self.exact_eligible.to_json())
            .with_some("shapeDigest", match &self.shape_digest { Some(x) => Some(x.to_json()), None => None })
            .with("projectedShape", self.projected_shape.to_json())
    }
}

/// A use of one callable by another.
#[derive(Debug, PartialEq, Eq)]
pub struct UseFact {
    pub fact_id: String,
    pub provenance: CallableFactProvenance,
    pub source_owner: String,
    pub relation_kind: String,
    pub target_callable_id: String,
    pub target_symbol_identity: Option<String>,
    pub target_repository_namespace: Option<String>,
    pub target_resolution: TargetResolution,
    pub relationship_authority: RelationshipAuthority,
    pub exact_eligible: bool,
    pub relation_evidence: Json,
}

/// The model of a [`UseFact`].
pub struct UseFactModel {
    pub fact_id: Seq<char>,
    pub provenance: CallableFactProvenanceModel,
    pub source_owner: Seq<char>,
    pub relation_kind: Seq<char>,
    pub target_callable_id: Seq<char>,
    pub target_symbol_identity: Option<Seq<char>>,
    pub target_repository_namespace: Option<Seq<char>>,
    pub target_resolution: TargetResolution,
    pub relationship_authority: RelationshipAuthority,
    pub exact_eligible: bool,
    pub relation_evidence: JsonModel,
}

impl DeepView for UseFact {
    type V = UseFactModel;

    open spec fn deep_view(&self) -> UseFactModel {
        UseFactModel {
            fact_id: self.fact_id.deep_view(),
            provenance: self.provenance.deep_view(),
            source_owner: self.source_owner.deep_view(),
            relation_kind: self.relation_kind.deep_view(),
            target_callable_id: self.target_callable_id.deep_view(),
            target_symbol_identity: self.target_symbol_identity.deep_view(),
            target_repository_namespace: self.target_repository_namespace.deep_view(),
            target_resolution: self.target_resolution.deep_view(),
            relationship_authority: self.relationship_authority.deep_view(),
            exact_eligible: self.exact_eligible.deep_view(),
            relation_evidence: self.relation_evidence.deep_view(),
        }
    }
}

impl Record for UseFact {
    open spec fn json(v: UseFactModel) -> JsonModel {
        JsonModel::object()
            .with("factId"@, <String as Record>::json(v.fact_id))
            .with("provenance"@, <CallableFactProvenance as Record>::json(v.provenance))
            .with("sourceOwner"@, <String as Record>::json(v.source_owner))
            .with("relationKind"@, <String as Record>::json(v.relation_kind))
            .with("targetCallableId"@, <String as Record>::json(v.target_callable_id))
            .with_some("targetSymbolIdentity"@, match v.target_symbol_identity { Some(x) => Some(<String as Record>::json(x)), None => None })
            .with_some("targetRepositoryNamespace"@, match v.target_repository_namespace { Some(x) => Some(<String as Record>::json(x)), None => None })
            .with("targetResolution"@, <TargetResolution as Record>::json(v.target_resolution))
            .with("relationshipAuthority"@, <RelationshipAuthority as Record>::json(v.relationship_authority))
            .with("exactEligible"@, <bool as Record>::json(v.exact_eligible))
            .with("relationEvidence"@, <Json as Record>::json(v.relation_evidence))
    }

    fn copied(&self) -> (r: UseFact) {
        UseFact {
            fact_id: self.fact_id.copied(),
            provenance: self.provenance.copied(),
            source_owner: self.source_owner.copied(),
            relation_kind: self.relation_kind.copied(),
            target_callable_id: self.target_callable_id.copied(),
            target_symbol_identity: self.target_symbol_identity.copied(),
            target_repository_namespace: self.target_repository_namespace.copied(),
            target_resolution: self.target_resolution.copied(),
            relationship_authority: self.relationship_authority.copied(),
            exact_eligible: self.exact_eligible.copied(),
            relation_evidence: self.relation_evidence.copied(),
        }
    }

    fn same_as(&self, other: &UseFact) -> (r: bool) {
        self.fact_id.same_as(&other.fact_id)
            && self.provenance.same_as(&other.provenance)
            && self.source_owner.same_as(&other.source_owner)
            && self.relation_kind.same_as(&other.relation_kind)
            && self.target_callable_id.same_as(&other.target_callable_id)
            && self.target_symbol_identity.same_as(&other.target_symbol_identity)
            && self.target_repository_namespace.same_as(&other.target_repository_namespace)
            && self.target_resolution.same_as(&other.target_resolution)
            && self.relationship_authority.same_as(&other.relationship_authority)
            && self.exact_eligible.same_as(&other.exact_eligible)
            && self.relation_evidence.same_as(&other.relation_evidence)
    }

    fn to_json(&self) -> (r: Json) {
        Json::object()
            .with("factId", self.fact_id.to_json())
            .with("provenance", self.provenance.to_json())
            .with("sourceOwner", self.source_owner.to_json())
            .with("relationKind", self.relation_kind.to_json())
            .with("targetCallableId", self.target_callable_id.to_json())
            .with_some("targetSymbolIdentity", match &self.target_symbol_identity { Some(x) => Some(x.to_json()), None => None })
            .with_some("targetRepositoryNamespace", match &self.target_repository_namespace { Some(x) => Some(x.to_json()), None => None })
            .with("targetResolution", self.target_resolution.to_json())
            .with("relationshipAuthority", self.relationship_authority.to_json())
            .with("exactEligible", self.exact_eligible.to_json())
            .with("relationEvidence", self.relation_evidence.to_json())
    }
}

/// A place that the compiler could not resolve.
#[derive(Debug, PartialEq, Eq)]
pub struct BoundaryFact {
    pub fact_id: String,
    pub provenance: CallableFactProvenance,
    pub stage: String,
    pub code: String,
    pub subject: Option<String>,
    pub required_checks: Vec<String>,
}

/// The model of a [`BoundaryFact`].
pub struct BoundaryFactModel {
    pub fact_id: Seq<char>,
    pub provenance: CallableFactProvenanceModel,
    pub stage: Seq<char>,
    pub code: Seq<char>,
    pub subject: Option<Seq<char>>,
    pub required_checks: Seq<Seq<char>>,
}

impl DeepView for BoundaryFact {
    type V = BoundaryFactModel;

    open spec fn deep_view(&self) -> BoundaryFactModel {
        BoundaryFactModel {
            fact_id: self.fact_id.deep_view(),
            provenance: self.provenance.deep_view(),
            stage: self.stage.deep_view(),
            code: self.code.deep_view(),
            subject: self.subject.deep_view(),
            required_checks: self.required_checks.deep_view(),
        }
    }
}

impl Record for BoundaryFact {
    open spec fn json(v: BoundaryFactModel) -> JsonModel {
        JsonModel::object()
            .with("factId"@, <String as Record>::json(v.fact_id))
            .with("provenance"@, <CallableFactProvenance as Record>::json(v.provenance))
            .with("stage"@, <String as Record>::json(v.stage))
            .with("code"@, <String as Record>::json(v.code))
            .with_some("subject"@, match v.subject { Some(x) => Some(<String as Record>::json(x)), None => None })
            .with("requiredChecks"@, <Vec<String> as Record>::json(v.required_checks))
    }

    fn copied(&self) -> (r: BoundaryFact) {
        BoundaryFact {
            fact_id: self.fact_id.copied(),
            provenance: self.provenance.copied(),
            stage: self.stage.copied(),
            code: self.code.copied(),
            subject: self.subject.copied(),
            required_checks: self.required_checks.copied(),
        }
    }

    fn same_as(&self, other: &BoundaryFact) -> (r: bool) {
        self.fact_id.same_as(&other.fact_id)
            && self.provenance.same_as(&other.provenance)
            && self.stage.same_as(&other.stage)
            && self.code.same_as(&other.code)
            && self.subject.same_as(&other.subject)
            && self.required_checks.same_as(&other.required_checks)
    }

    fn to_json(&self) -> (r: Json) {
        Json::object()
            .with("factId", self.fact_id.to_json())
            .with("provenance", self.provenance.to_json())
            .with("stage", self.stage.to_json())
            .with("code", self.code.to_json())
            .with_some("subject", match &self.subject { Some(x) => Some(x.to_json()), None => None })
            .with("requiredChecks", self.required_checks.to_json())
    }
}

/// One fact.
#[derive(Debug, PartialEq, Eq)]
pub enum CallableFact {
    Declaration(DeclarationFact),
    Use(UseFact),
    Boundary(BoundaryFact),
}

/// The model of a [`CallableFact`].
pub enum CallableFactModel {
    Declaration(DeclarationFactModel),
    Use(UseFactModel),
    Boundary(BoundaryFactModel),
}

impl DeepView for CallableFact {
    type V = CallableFactModel;

    open spec fn deep_view(&self) -> CallableFactModel {
        match self {
            CallableFact::Declaration(x) => CallableFactModel::Declaration(x.deep_view()),
            CallableFact::Use(x) => CallableFactModel::Use(x.deep_view()),
            CallableFact::Boundary(x) => CallableFactModel::Boundary(x.deep_view()),
        }
    }
}

impl Record for CallableFact {
    open spec fn json(v: CallableFactModel) -> JsonModel {
        match v {
            CallableFactModel::Declaration(x) => <DeclarationFact as Record>::json(x).with("factKind"@, JsonModel::Str("DECLARATION"@)),
            CallableFactModel::Use(x) => <UseFact as Record>::json(x).with("factKind"@, JsonModel::Str("USE"@)),
            CallableFactModel::Boundary(x) => <BoundaryFact as Record>::json(x).with("factKind"@, JsonModel::Str("BOUNDARY"@)),
        }
    }

    fn copied(&self) -> (r: CallableFact) {
        match self {
            CallableFact::Declaration(x) => CallableFact::Declaration(x.copied()),
            CallableFact::Use(x) => CallableFact::Use(x.copied()),
            CallableFact::Boundary(x) => CallableFact::Boundary(x.copied()),
        }
    }

    fn same_as(&self, other: &CallableFact) -> (r: bool) {
        match (self, other) {
            (CallableFact::Declaration(x), CallableFact::Declaration(y)) => x.same_as(y),
            (CallableFact::Use(x), CallableFact::Use(y)) => x.same_as(y),
            (CallableFact::Boundary(x), CallableFact::Boundary(y)) => x.same_as(y),
            _ => false,
        }
    }

    fn to_json(&self) -> (r: Json) {
        match self {
            CallableFact::Declaration(x) => x.to_json().with("factKind", Json::Str("DECLARATION".to_owned())),
            CallableFact::Use(x) => x.to_json().with("factKind", Json::Str("USE".to_owned())),
            CallableFact::Boundary(x) => x.to_json().with("factKind", Json::Str("BOUNDARY".to_owned())),
        }
    }
}


impl CallableFactModel {
    /// The identity of the fact.
    pub open spec fn fact_id(self) -> Seq<char> {
        match self {
            CallableFactModel::Declaration(row) => row.fact_id,
            CallableFactModel::Use(row) => row.fact_id,
            CallableFactModel::Boundary(row) => row.fact_id,
        }
    }

    /// Where the fact comes from.
    pub open spec fn provenance(self) -> CallableFactProvenanceModel {
        match self {
            CallableFactModel::Declaration(row) => row.provenance,
            CallableFactModel::Use(row) => row.provenance,
            CallableFactModel::Boundary(row) => row.provenance,
        }
    }

    /// The kind of the fact.
    pub open spec fn kind(self) -> CallableFactKind {
        match self {
            CallableFactModel::Declaration(_) => CallableFactKind::Declaration,
            CallableFactModel::Use(_) => CallableFactKind::Use,
            CallableFactModel::Boundary(_) => CallableFactKind::Boundary,
        }
    }
}

impl CallableFact {
    /// The identity of the fact.
    pub fn fact_id(&self) -> (r: &String)
        ensures
            r@ == self.deep_view().fact_id(),
    {
        match self {
            CallableFact::Declaration(row) => &row.fact_id,
            CallableFact::Use(row) => &row.fact_id,
            CallableFact::Boundary(row) => &row.fact_id,
        }
    }

    /// Where the fact comes from.
    pub fn provenance(&self) -> (r: &CallableFactProvenance)
        ensures
            r.deep_view() == self.deep_view().provenance(),
    {
        match self {
            CallableFact::Declaration(row) => &row.provenance,
            CallableFact::Use(row) => &row.provenance,
            CallableFact::Boundary(row) => &row.provenance,
        }
    }

    /// The kind of the fact.
    pub fn kind(&self) -> (r: CallableFactKind)
        ensures
            r == self.deep_view().kind(),
    {
        match self {
            CallableFact::Declaration(_) => CallableFactKind::Declaration,
            CallableFact::Use(_) => CallableFactKind::Use,
            CallableFact::Boundary(_) => CallableFactKind::Boundary,
        }
    }
}

/// Some facts that are retained as one object.
#[derive(Debug, PartialEq, Eq)]
pub struct CallableFactShard {
    pub schema: String,
    pub facts: Vec<CallableFact>,
}

/// The model of a [`CallableFactShard`].
pub struct CallableFactShardModel {
    pub schema: Seq<char>,
    pub facts: Seq<CallableFactModel>,
}

impl DeepView for CallableFactShard {
    type V = CallableFactShardModel;

    open spec fn deep_view(&self) -> CallableFactShardModel {
        CallableFactShardModel {
            schema: self.schema.deep_view(),
            facts: self.facts.deep_view(),
        }
    }
}

impl Record for CallableFactShard {
    open spec fn json(v: CallableFactShardModel) -> JsonModel {
        JsonModel::object()
            .with("schema"@, <String as Record>::json(v.schema))
            .with("facts"@, <Vec<CallableFact> as Record>::json(v.facts))
    }

    fn copied(&self) -> (r: CallableFactShard) {
        CallableFactShard {
            schema: self.schema.copied(),
            facts: self.facts.copied(),
        }
    }

    fn same_as(&self, other: &CallableFactShard) -> (r: bool) {
        self.schema.same_as(&other.schema)
            && self.facts.same_as(&other.facts)
    }

    fn to_json(&self) -> (r: Json) {
        Json::object()
            .with("schema", self.schema.to_json())
            .with("facts", self.facts.to_json())
    }
}

/// A compilation of a member, with what the compiler covered of it.
#[derive(Debug, PartialEq, Eq)]
pub struct CallableCompilationBinding {
    pub compilation_id: String,
    pub generation_id: String,
    pub generation_ref: CasObject,
    pub semantic_authority: String,
    pub extractor_id: String,
    pub adapter_digest: String,
    pub runtime_digest: String,
    pub descriptor_coverage: GraphCoverage,
    pub relation_coverage: GraphCoverage,
}

/// The model of a [`CallableCompilationBinding`].
pub struct CallableCompilationBindingModel {
    pub compilation_id: Seq<char>,
    pub generation_id: Seq<char>,
    pub generation_ref: CasObjectModel,
    pub semantic_authority: Seq<char>,
    pub extractor_id: Seq<char>,
    pub adapter_digest: Seq<char>,
    pub runtime_digest: Seq<char>,
    pub descriptor_coverage: GraphCoverage,
    pub relation_coverage: GraphCoverage,
}

impl DeepView for CallableCompilationBinding {
    type V = CallableCompilationBindingModel;

    open spec fn deep_view(&self) -> CallableCompilationBindingModel {
        CallableCompilationBindingModel {
            compilation_id: self.compilation_id.deep_view(),
            generation_id: self.generation_id.deep_view(),
            generation_ref: self.generation_ref.deep_view(),
            semantic_authority: self.semantic_authority.deep_view(),
            extractor_id: self.extractor_id.deep_view(),
            adapter_digest: self.adapter_digest.deep_view(),
            runtime_digest: self.runtime_digest.deep_view(),
            descriptor_coverage: self.descriptor_coverage.deep_view(),
            relation_coverage: self.relation_coverage.deep_view(),
        }
    }
}

impl Record for CallableCompilationBinding {
    open spec fn json(v: CallableCompilationBindingModel) -> JsonModel {
        JsonModel::object()
            .with("compilationId"@, <String as Record>::json(v.compilation_id))
            .with("generationId"@, <String as Record>::json(v.generation_id))
            .with("generationRef"@, <CasObject as Record>::json(v.generation_ref))
            .with("semanticAuthority"@, <String as Record>::json(v.semantic_authority))
            .with("extractorId"@, <String as Record>::json(v.extractor_id))
            .with("adapterDigest"@, <String as Record>::json(v.adapter_digest))
            .with("runtimeDigest"@, <String as Record>::json(v.runtime_digest))
            .with("descriptorCoverage"@, <GraphCoverage as Record>::json(v.descriptor_coverage))
            .with("relationCoverage"@, <GraphCoverage as Record>::json(v.relation_coverage))
    }

    fn copied(&self) -> (r: CallableCompilationBinding) {
        CallableCompilationBinding {
            compilation_id: self.compilation_id.copied(),
            generation_id: self.generation_id.copied(),
            generation_ref: self.generation_ref.copied(),
            semantic_authority: self.semantic_authority.copied(),
            extractor_id: self.extractor_id.copied(),
            adapter_digest: self.adapter_digest.copied(),
            runtime_digest: self.runtime_digest.copied(),
            descriptor_coverage: self.descriptor_coverage.copied(),
            relation_coverage: self.relation_coverage.copied(),
        }
    }

    fn same_as(&self, other: &CallableCompilationBinding) -> (r: bool) {
        self.compilation_id.same_as(&other.compilation_id)
            && self.generation_id.same_as(&other.generation_id)
            && self.generation_ref.same_as(&other.generation_ref)
            && self.semantic_authority.same_as(&other.semantic_authority)
            && self.extractor_id.same_as(&other.extractor_id)
            && self.adapter_digest.same_as(&other.adapter_digest)
            && self.runtime_digest.same_as(&other.runtime_digest)
            && self.descriptor_coverage.same_as(&other.descriptor_coverage)
            && self.relation_coverage.same_as(&other.relation_coverage)
    }

    fn to_json(&self) -> (r: Json) {
        Json::object()
            .with("compilationId", self.compilation_id.to_json())
            .with("generationId", self.generation_id.to_json())
            .with("generationRef", self.generation_ref.to_json())
            .with("semanticAuthority", self.semantic_authority.to_json())
            .with("extractorId", self.extractor_id.to_json())
            .with("adapterDigest", self.adapter_digest.to_json())
            .with("runtimeDigest", self.runtime_digest.to_json())
            .with("descriptorCoverage", self.descriptor_coverage.to_json())
            .with("relationCoverage", self.relation_coverage.to_json())
    }
}

/// A member of the thread that the facts are about.
#[derive(Debug, PartialEq, Eq)]
pub struct CallableMemberBinding {
    pub member_alias: String,
    pub service_alias: String,
    pub session_id: String,
    pub session_authority_digest: String,
    pub repository_namespace: String,
    pub base_revision: String,
    pub snapshot_ref: CasObject,
    pub compilations: Vec<CallableCompilationBinding>,
}

/// The model of a [`CallableMemberBinding`].
pub struct CallableMemberBindingModel {
    pub member_alias: Seq<char>,
    pub service_alias: Seq<char>,
    pub session_id: Seq<char>,
    pub session_authority_digest: Seq<char>,
    pub repository_namespace: Seq<char>,
    pub base_revision: Seq<char>,
    pub snapshot_ref: CasObjectModel,
    pub compilations: Seq<CallableCompilationBindingModel>,
}

impl DeepView for CallableMemberBinding {
    type V = CallableMemberBindingModel;

    open spec fn deep_view(&self) -> CallableMemberBindingModel {
        CallableMemberBindingModel {
            member_alias: self.member_alias.deep_view(),
            service_alias: self.service_alias.deep_view(),
            session_id: self.session_id.deep_view(),
            session_authority_digest: self.session_authority_digest.deep_view(),
            repository_namespace: self.repository_namespace.deep_view(),
            base_revision: self.base_revision.deep_view(),
            snapshot_ref: self.snapshot_ref.deep_view(),
            compilations: self.compilations.deep_view(),
        }
    }
}

impl Record for CallableMemberBinding {
    open spec fn json(v: CallableMemberBindingModel) -> JsonModel {
        JsonModel::object()
            .with("memberAlias"@, <String as Record>::json(v.member_alias))
            .with("serviceAlias"@, <String as Record>::json(v.service_alias))
            .with("sessionId"@, <String as Record>::json(v.session_id))
            .with("sessionAuthorityDigest"@, <String as Record>::json(v.session_authority_digest))
            .with("repositoryNamespace"@, <String as Record>::json(v.repository_namespace))
            .with("baseRevision"@, <String as Record>::json(v.base_revision))
            .with("snapshotRef"@, <CasObject as Record>::json(v.snapshot_ref))
            .with("compilations"@, <Vec<CallableCompilationBinding> as Record>::json(v.compilations))
    }

    fn copied(&self) -> (r: CallableMemberBinding) {
        CallableMemberBinding {
            member_alias: self.member_alias.copied(),
            service_alias: self.service_alias.copied(),
            session_id: self.session_id.copied(),
            session_authority_digest: self.session_authority_digest.copied(),
            repository_namespace: self.repository_namespace.copied(),
            base_revision: self.base_revision.copied(),
            snapshot_ref: self.snapshot_ref.copied(),
            compilations: self.compilations.copied(),
        }
    }

    fn same_as(&self, other: &CallableMemberBinding) -> (r: bool) {
        self.member_alias.same_as(&other.member_alias)
            && self.service_alias.same_as(&other.service_alias)
            && self.session_id.same_as(&other.session_id)
            && self.session_authority_digest.same_as(&other.session_authority_digest)
            && self.repository_namespace.same_as(&other.repository_namespace)
            && self.base_revision.same_as(&other.base_revision)
            && self.snapshot_ref.same_as(&other.snapshot_ref)
            && self.compilations.same_as(&other.compilations)
    }

    fn to_json(&self) -> (r: Json) {
        Json::object()
            .with("memberAlias", self.member_alias.to_json())
            .with("serviceAlias", self.service_alias.to_json())
            .with("sessionId", self.session_id.to_json())
            .with("sessionAuthorityDigest", self.session_authority_digest.to_json())
            .with("repositoryNamespace", self.repository_namespace.to_json())
            .with("baseRevision", self.base_revision.to_json())
            .with("snapshotRef", self.snapshot_ref.to_json())
            .with("compilations", self.compilations.to_json())
    }
}

impl Keyed for CallableMemberBinding {
    open spec fn key(v: CallableMemberBindingModel) -> Seq<char> {
        v.member_alias
    }

    fn key_text(&self) -> (r: &String) {
        &self.member_alias
    }
}

/// A provider and a consumer that were declared to belong together.
#[derive(Debug, PartialEq, Eq)]
pub struct CallablePairBinding {
    pub pair_id: String,
    pub provider_member: String,
    pub consumer_member: String,
    pub relationship_authority: RelationshipAuthority,
    pub dependency_evidence_ref: Option<CasObject>,
}

/// The model of a [`CallablePairBinding`].
pub struct CallablePairBindingModel {
    pub pair_id: Seq<char>,
    pub provider_member: Seq<char>,
    pub consumer_member: Seq<char>,
    pub relationship_authority: RelationshipAuthority,
    pub dependency_evidence_ref: Option<CasObjectModel>,
}

impl DeepView for CallablePairBinding {
    type V = CallablePairBindingModel;

    open spec fn deep_view(&self) -> CallablePairBindingModel {
        CallablePairBindingModel {
            pair_id: self.pair_id.deep_view(),
            provider_member: self.provider_member.deep_view(),
            consumer_member: self.consumer_member.deep_view(),
            relationship_authority: self.relationship_authority.deep_view(),
            dependency_evidence_ref: self.dependency_evidence_ref.deep_view(),
        }
    }
}

impl Record for CallablePairBinding {
    open spec fn json(v: CallablePairBindingModel) -> JsonModel {
        JsonModel::object()
            .with("pairId"@, <String as Record>::json(v.pair_id))
            .with("providerMember"@, <String as Record>::json(v.provider_member))
            .with("consumerMember"@, <String as Record>::json(v.consumer_member))
            .with("relationshipAuthority"@, <RelationshipAuthority as Record>::json(v.relationship_authority))
            .with_some("dependencyEvidenceRef"@, match v.dependency_evidence_ref { Some(x) => Some(<CasObject as Record>::json(x)), None => None })
    }

    fn copied(&self) -> (r: CallablePairBinding) {
        CallablePairBinding {
            pair_id: self.pair_id.copied(),
            provider_member: self.provider_member.copied(),
            consumer_member: self.consumer_member.copied(),
            relationship_authority: self.relationship_authority.copied(),
            dependency_evidence_ref: self.dependency_evidence_ref.copied(),
        }
    }

    fn same_as(&self, other: &CallablePairBinding) -> (r: bool) {
        self.pair_id.same_as(&other.pair_id)
            && self.provider_member.same_as(&other.provider_member)
            && self.consumer_member.same_as(&other.consumer_member)
            && self.relationship_authority.same_as(&other.relationship_authority)
            && self.dependency_evidence_ref.same_as(&other.dependency_evidence_ref)
    }

    fn to_json(&self) -> (r: Json) {
        Json::object()
            .with("pairId", self.pair_id.to_json())
            .with("providerMember", self.provider_member.to_json())
            .with("consumerMember", self.consumer_member.to_json())
            .with("relationshipAuthority", self.relationship_authority.to_json())
            .with_some("dependencyEvidenceRef", match &self.dependency_evidence_ref { Some(x) => Some(x.to_json()), None => None })
    }
}

impl Keyed for CallablePairBinding {
    open spec fn key(v: CallablePairBindingModel) -> Seq<char> {
        v.pair_id
    }

    fn key_text(&self) -> (r: &String) {
        &self.pair_id
    }
}

/// How complete a fact set is.
#[derive(Debug, PartialEq, Eq)]
pub struct CallableCompleteness {
    pub certainty: CallableFactSetCertainty,
    pub coverage: CallableFactSetCoverage,
}

/// The model of a [`CallableCompleteness`].
pub struct CallableCompletenessModel {
    pub certainty: CallableFactSetCertainty,
    pub coverage: CallableFactSetCoverage,
}

impl DeepView for CallableCompleteness {
    type V = CallableCompletenessModel;

    open spec fn deep_view(&self) -> CallableCompletenessModel {
        CallableCompletenessModel {
            certainty: self.certainty.deep_view(),
            coverage: self.coverage.deep_view(),
        }
    }
}

impl Record for CallableCompleteness {
    open spec fn json(v: CallableCompletenessModel) -> JsonModel {
        JsonModel::object()
            .with("certainty"@, <CallableFactSetCertainty as Record>::json(v.certainty))
            .with("coverage"@, <CallableFactSetCoverage as Record>::json(v.coverage))
    }

    fn copied(&self) -> (r: CallableCompleteness) {
        CallableCompleteness {
            certainty: self.certainty.copied(),
            coverage: self.coverage.copied(),
        }
    }

    fn same_as(&self, other: &CallableCompleteness) -> (r: bool) {
        self.certainty.same_as(&other.certainty)
            && self.coverage.same_as(&other.coverage)
    }

    fn to_json(&self) -> (r: Json) {
        Json::object()
            .with("certainty", self.certainty.to_json())
            .with("coverage", self.coverage.to_json())
    }
}

/// What a fact set is bound to.
#[derive(Debug, PartialEq, Eq)]
pub struct CallableFactSetAuthority {
    pub authority_digest: String,
    pub binding_digest: String,
    pub thread_id: String,
    pub thread_authority_digest: String,
    pub profile_digest: String,
    pub pairs: Vec<CallablePairBinding>,
    pub members: Vec<CallableMemberBinding>,
    pub completeness: CallableCompleteness,
    pub fact_shards: Vec<CasObject>,
    pub query_index_ref: CasObject,
    pub evidence_ref: CasObject,
    pub direct_cas_closure: Vec<CasObject>,
}

/// The model of a [`CallableFactSetAuthority`].
pub struct CallableFactSetAuthorityModel {
    pub authority_digest: Seq<char>,
    pub binding_digest: Seq<char>,
    pub thread_id: Seq<char>,
    pub thread_authority_digest: Seq<char>,
    pub profile_digest: Seq<char>,
    pub pairs: Seq<CallablePairBindingModel>,
    pub members: Seq<CallableMemberBindingModel>,
    pub completeness: CallableCompletenessModel,
    pub fact_shards: Seq<CasObjectModel>,
    pub query_index_ref: CasObjectModel,
    pub evidence_ref: CasObjectModel,
    pub direct_cas_closure: Seq<CasObjectModel>,
}

impl DeepView for CallableFactSetAuthority {
    type V = CallableFactSetAuthorityModel;

    open spec fn deep_view(&self) -> CallableFactSetAuthorityModel {
        CallableFactSetAuthorityModel {
            authority_digest: self.authority_digest.deep_view(),
            binding_digest: self.binding_digest.deep_view(),
            thread_id: self.thread_id.deep_view(),
            thread_authority_digest: self.thread_authority_digest.deep_view(),
            profile_digest: self.profile_digest.deep_view(),
            pairs: self.pairs.deep_view(),
            members: self.members.deep_view(),
            completeness: self.completeness.deep_view(),
            fact_shards: self.fact_shards.deep_view(),
            query_index_ref: self.query_index_ref.deep_view(),
            evidence_ref: self.evidence_ref.deep_view(),
            direct_cas_closure: self.direct_cas_closure.deep_view(),
        }
    }
}

impl Record for CallableFactSetAuthority {
    open spec fn json(v: CallableFactSetAuthorityModel) -> JsonModel {
        JsonModel::object()
            .with("authorityDigest"@, <String as Record>::json(v.authority_digest))
            .with("bindingDigest"@, <String as Record>::json(v.binding_digest))
            .with("threadId"@, <String as Record>::json(v.thread_id))
            .with("threadAuthorityDigest"@, <String as Record>::json(v.thread_authority_digest))
            .with("profileDigest"@, <String as Record>::json(v.profile_digest))
            .with("pairs"@, <Vec<CallablePairBinding> as Record>::json(v.pairs))
            .with("members"@, <Vec<CallableMemberBinding> as Record>::json(v.members))
            .with("completeness"@, <CallableCompleteness as Record>::json(v.completeness))
            .with("factShards"@, <Vec<CasObject> as Record>::json(v.fact_shards))
            .with("queryIndexRef"@, <CasObject as Record>::json(v.query_index_ref))
            .with("evidenceRef"@, <CasObject as Record>::json(v.evidence_ref))
            .with("directCasClosure"@, <Vec<CasObject> as Record>::json(v.direct_cas_closure))
    }

    fn copied(&self) -> (r: CallableFactSetAuthority) {
        CallableFactSetAuthority {
            authority_digest: self.authority_digest.copied(),
            binding_digest: self.binding_digest.copied(),
            thread_id: self.thread_id.copied(),
            thread_authority_digest: self.thread_authority_digest.copied(),
            profile_digest: self.profile_digest.copied(),
            pairs: self.pairs.copied(),
            members: self.members.copied(),
            completeness: self.completeness.copied(),
            fact_shards: self.fact_shards.copied(),
            query_index_ref: self.query_index_ref.copied(),
            evidence_ref: self.evidence_ref.copied(),
            direct_cas_closure: self.direct_cas_closure.copied(),
        }
    }

    fn same_as(&self, other: &CallableFactSetAuthority) -> (r: bool) {
        self.authority_digest.same_as(&other.authority_digest)
            && self.binding_digest.same_as(&other.binding_digest)
            && self.thread_id.same_as(&other.thread_id)
            && self.thread_authority_digest.same_as(&other.thread_authority_digest)
            && self.profile_digest.same_as(&other.profile_digest)
            && self.pairs.same_as(&other.pairs)
            && self.members.same_as(&other.members)
            && self.completeness.same_as(&other.completeness)
            && self.fact_shards.same_as(&other.fact_shards)
            && self.query_index_ref.same_as(&other.query_index_ref)
            && self.evidence_ref.same_as(&other.evidence_ref)
            && self.direct_cas_closure.same_as(&other.direct_cas_closure)
    }

    fn to_json(&self) -> (r: Json) {
        Json::object()
            .with("authorityDigest", self.authority_digest.to_json())
            .with("bindingDigest", self.binding_digest.to_json())
            .with("threadId", self.thread_id.to_json())
            .with("threadAuthorityDigest", self.thread_authority_digest.to_json())
            .with("profileDigest", self.profile_digest.to_json())
            .with("pairs", self.pairs.to_json())
            .with("members", self.members.to_json())
            .with("completeness", self.completeness.to_json())
            .with("factShards", self.fact_shards.to_json())
            .with("queryIndexRef", self.query_index_ref.to_json())
            .with("evidenceRef", self.evidence_ref.to_json())
            .with("directCasClosure", self.direct_cas_closure.to_json())
    }
}


/// A shard of facts as it is retained: its bytes, the reference to them, and the
/// facts that they hold, where they hold some.
pub struct PreparedFactShard {
    pub reference: CasObject,
    pub bytes: Vec<u8>,
    pub shard: Option<CallableFactShard>,
}

/// The model of a [`PreparedFactShard`].
pub struct PreparedFactShardModel {
    pub reference: CasObjectModel,
    pub bytes: Seq<u8>,
    pub shard: Option<CallableFactShardModel>,
}

impl DeepView for PreparedFactShard {
    type V = PreparedFactShardModel;

    open spec fn deep_view(&self) -> PreparedFactShardModel {
        PreparedFactShardModel {
            reference: self.reference.deep_view(),
            bytes: self.bytes@,
            shard: self.shard.deep_view(),
        }
    }
}

/// A verified set of facts.
pub struct PreparedCallableFactSet {
    pub fact_set_id: String,
    pub authority: CallableFactSetAuthority,
    pub fact_shards: Vec<PreparedFactShard>,
}

/// The model of a [`PreparedCallableFactSet`].
pub struct PreparedCallableFactSetModel {
    pub fact_set_id: Seq<char>,
    pub authority: CallableFactSetAuthorityModel,
    pub fact_shards: Seq<PreparedFactShardModel>,
}

impl DeepView for PreparedCallableFactSet {
    type V = PreparedCallableFactSetModel;

    open spec fn deep_view(&self) -> PreparedCallableFactSetModel {
        PreparedCallableFactSetModel {
            fact_set_id: self.fact_set_id.deep_view(),
            authority: self.authority.deep_view(),
            fact_shards: self.fact_shards.deep_view(),
        }
    }
}

/// The bytes of an object that is to be retained, with the reference to them.
pub struct PreparedCasObject {
    pub reference: CasObject,
    pub bytes: Vec<u8>,
}

/// The model of a [`PreparedCasObject`].
pub struct PreparedCasObjectModel {
    pub reference: CasObjectModel,
    pub bytes: Seq<u8>,
}

impl DeepView for PreparedCasObject {
    type V = PreparedCasObjectModel;

    open spec fn deep_view(&self) -> PreparedCasObjectModel {
        PreparedCasObjectModel {
            reference: self.reference.deep_view(),
            bytes: self.bytes@,
        }
    }
}

impl PreparedCasObject {
    /// Another value with the same contents.
    pub fn copied(&self) -> (r: PreparedCasObject)
        ensures
            r.deep_view() == self.deep_view(),
    {
        PreparedCasObject {
            reference: self.reference.copied(),
            bytes: copy_bytes(&self.bytes),
        }
    }

    /// Whether two values have the same contents.
    pub fn same_as(&self, other: &PreparedCasObject) -> (r: bool)
        ensures
            r == (self.deep_view() == other.deep_view()),
    {
        self.reference.same_as(&other.reference)
            && same_bytes(self.bytes.as_slice(), other.bytes.as_slice())
    }
}

/// What a query of a fact set looks for.
#[derive(Debug, PartialEq, Eq)]
pub enum CallableLookup {
    FullSymbol {
        repository_namespace: String,
        symbol_identity: String,
    },
    CallableFamily {
        repository_namespace: Option<String>,
        callable_id: String,
    },
    Token {
        term: String,
    },
}

/// The model of a [`CallableLookup`].
pub enum CallableLookupModel {
    FullSymbol {
        repository_namespace: Seq<char>,
        symbol_identity: Seq<char>,
    },
    CallableFamily {
        repository_namespace: Option<Seq<char>>,
        callable_id: Seq<char>,
    },
    Token {
        term: Seq<char>,
    },
}

impl DeepView for CallableLookup {
    type V = CallableLookupModel;

    open spec fn deep_view(&self) -> CallableLookupModel {
        match self {
            CallableLookup::FullSymbol { repository_namespace, symbol_identity } => CallableLookupModel::FullSymbol {
                repository_namespace: repository_namespace.deep_view(),
                symbol_identity: symbol_identity.deep_view(),
            },
            CallableLookup::CallableFamily { repository_namespace, callable_id } => CallableLookupModel::CallableFamily {
                repository_namespace: repository_namespace.deep_view(),
                callable_id: callable_id.deep_view(),
            },
            CallableLookup::Token { term } => CallableLookupModel::Token {
                term: term.deep_view(),
            },
        }
    }
}

impl Record for CallableLookup {
    open spec fn json(v: CallableLookupModel) -> JsonModel {
        match v {
            CallableLookupModel::FullSymbol { repository_namespace, symbol_identity } => JsonModel::object()
                .with("repositoryNamespace"@, <String as Record>::json(repository_namespace))
                .with("symbolIdentity"@, <String as Record>::json(symbol_identity))
                .with("kind"@, JsonModel::Str("FULL_SYMBOL"@)),
            CallableLookupModel::CallableFamily { repository_namespace, callable_id } => JsonModel::object()
                .with_some("repositoryNamespace"@, match repository_namespace { Some(x) => Some(<String as Record>::json(x)), None => None })
                .with("callableId"@, <String as Record>::json(callable_id))
                .with("kind"@, JsonModel::Str("CALLABLE_FAMILY"@)),
            CallableLookupModel::Token { term } => JsonModel::object()
                .with("term"@, <String as Record>::json(term))
                .with("kind"@, JsonModel::Str("TOKEN"@)),
        }
    }

    fn copied(&self) -> (r: CallableLookup) {
        match self {
            CallableLookup::FullSymbol { repository_namespace, symbol_identity } => CallableLookup::FullSymbol {
                repository_namespace: repository_namespace.copied(),
                symbol_identity: symbol_identity.copied(),
            },
            CallableLookup::CallableFamily { repository_namespace, callable_id } => CallableLookup::CallableFamily {
                repository_namespace: repository_namespace.copied(),
                callable_id: callable_id.copied(),
            },
            CallableLookup::Token { term } => CallableLookup::Token {
                term: term.copied(),
            },
        }
    }

    fn same_as(&self, other: &CallableLookup) -> (r: bool) {
        match (self, other) {
            (CallableLookup::FullSymbol { repository_namespace: a0, symbol_identity: a1 }, CallableLookup::FullSymbol { repository_namespace: b0, symbol_identity: b1 }) => a0.same_as(b0) && a1.same_as(b1),
            (CallableLookup::CallableFamily { repository_namespace: a0, callable_id: a1 }, CallableLookup::CallableFamily { repository_namespace: b0, callable_id: b1 }) => a0.same_as(b0) && a1.same_as(b1),
            (CallableLookup::Token { term: a0 }, CallableLookup::Token { term: b0 }) => a0.same_as(b0),
            _ => false,
        }
    }

    fn to_json(&self) -> (r: Json) {
        match self {
            CallableLookup::FullSymbol { repository_namespace, symbol_identity } => Json::object()
                .with("repositoryNamespace", repository_namespace.to_json())
                .with("symbolIdentity", symbol_identity.to_json())
                .with("kind", Json::Str("FULL_SYMBOL".to_owned())),
            CallableLookup::CallableFamily { repository_namespace, callable_id } => Json::object()
                .with_some("repositoryNamespace", match repository_namespace { Some(x) => Some(x.to_json()), None => None })
                .with("callableId", callable_id.to_json())
                .with("kind", Json::Str("CALLABLE_FAMILY".to_owned())),
            CallableLookup::Token { term } => Json::object()
                .with("term", term.to_json())
                .with("kind", Json::Str("TOKEN".to_owned())),
        }
    }
}

/// A query of a fact set.
#[derive(Debug, PartialEq, Eq)]
pub struct CallableQueryRequest {
    pub lookups: Vec<CallableLookup>,
    pub max_results: usize,
}

/// The model of a [`CallableQueryRequest`].
pub struct CallableQueryRequestModel {
    pub lookups: Seq<CallableLookupModel>,
    pub max_results: usize,
}

impl DeepView for CallableQueryRequest {
    type V = CallableQueryRequestModel;

    open spec fn deep_view(&self) -> CallableQueryRequestModel {
        CallableQueryRequestModel {
            lookups: self.lookups.deep_view(),
            max_results: self.max_results.deep_view(),
        }
    }
}

impl Record for CallableQueryRequest {
    open spec fn json(v: CallableQueryRequestModel) -> JsonModel {
        JsonModel::object()
            .with("lookups"@, <Vec<CallableLookup> as Record>::json(v.lookups))
            .with("maxResults"@, <usize as Record>::json(v.max_results))
    }

    fn copied(&self) -> (r: CallableQueryRequest) {
        CallableQueryRequest {
            lookups: self.lookups.copied(),
            max_results: self.max_results.copied(),
        }
    }

    fn same_as(&self, other: &CallableQueryRequest) -> (r: bool) {
        self.lookups.same_as(&other.lookups)
            && self.max_results.same_as(&other.max_results)
    }

    fn to_json(&self) -> (r: Json) {
        Json::object()
            .with("lookups", self.lookups.to_json())
            .with("maxResults", self.max_results.to_json())
    }
}

/// What a query of a fact set found, and the index shards that it consulted.
#[derive(Debug, PartialEq, Eq)]
pub struct CallableQueryTrace {
    pub matched_fact_ids: Vec<String>,
    pub query_shard_refs: Vec<CasObject>,
}

/// The model of a [`CallableQueryTrace`].
pub struct CallableQueryTraceModel {
    pub matched_fact_ids: Seq<Seq<char>>,
    pub query_shard_refs: Seq<CasObjectModel>,
}

impl DeepView for CallableQueryTrace {
    type V = CallableQueryTraceModel;

    open spec fn deep_view(&self) -> CallableQueryTraceModel {
        CallableQueryTraceModel {
            matched_fact_ids: self.matched_fact_ids.deep_view(),
            query_shard_refs: self.query_shard_refs.deep_view(),
        }
    }
}

impl Record for CallableQueryTrace {
    open spec fn json(v: CallableQueryTraceModel) -> JsonModel {
        JsonModel::object()
            .with("matchedFactIds"@, <Vec<String> as Record>::json(v.matched_fact_ids))
            .with("queryShardRefs"@, <Vec<CasObject> as Record>::json(v.query_shard_refs))
    }

    fn copied(&self) -> (r: CallableQueryTrace) {
        CallableQueryTrace {
            matched_fact_ids: self.matched_fact_ids.copied(),
            query_shard_refs: self.query_shard_refs.copied(),
        }
    }

    fn same_as(&self, other: &CallableQueryTrace) -> (r: bool) {
        self.matched_fact_ids.same_as(&other.matched_fact_ids)
            && self.query_shard_refs.same_as(&other.query_shard_refs)
    }

    fn to_json(&self) -> (r: Json) {
        Json::object()
            .with("matchedFactIds", self.matched_fact_ids.to_json())
            .with("queryShardRefs", self.query_shard_refs.to_json())
    }
}

} // verus!
