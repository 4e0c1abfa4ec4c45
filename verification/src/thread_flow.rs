//! Pure construction of a bounded static flow slice from an exact root.
//!
//! The builder reads only a verified, retained set of callable facts. It cannot
//! reach a file system, a process, a compiler or a publication.

use vstd::prelude::*;
use vstd::string::*;

use crate::canonical::{hash, json_digest};
use crate::cas::{reference_to, CasObject, CasObjectModel};
use crate::error::{
    budget, corrupt, corrupted, exceeded, invalid, outcome, refused, ClewError, ErrorModel,
};
use crate::identity::{full_symbol_checked, validate_kotlin_full_symbol_identity};
use crate::json::{canonical_bytes, Json, JsonModel};
use crate::record::Record;
use crate::table::{
    contains_key, enter, entered, entered_keeps_keys, entered_keeps_table, find_record, first_table,
    has_key, is_table, last_table, latest_table_of, record_at, sort, sorted, table_of, Keyed,
};
use crate::text::{after_prefix, joined, same_bytes, same_text, strip_prefix};
use crate::thread_callables::{
    CallableFact, CallableFactModel, CallableFactProvenance, CallableFactProvenanceModel,
    CallableFactSetCertainty, CallableMemberBinding, CallableMemberBindingModel,
    CallablePairBinding, CallablePairBindingModel, PreparedCallableFactSet,
    PreparedCallableFactSetModel, PreparedFactShard, PreparedFactShardModel, RelationshipAuthority,
    SourceAnchor, SourceAnchorModel, TargetResolution, UseFact, UseFactModel,
};
use crate::thread_flow_cfg::{
    LocalCfgCatalog, LocalCfgNode, LocalCfgNodeModel, LocalCfgPayload, LocalCfgPayloadModel,
    LocalCfgSupport, LocalCfgSupportModel, PreparedLocalCfgModel,
};

verus! {

pub const FLOW_SLICE_SCHEMA: &'static str = "codeclew-flow-slice/0.1";

pub const FLOW_SLICE_PROJECTION_SCHEMA: &'static str = "codeclew-flow-slice-projection/0.1";

pub const MAX_FLOW_DEPTH: usize = 32;

pub const MAX_FLOW_NODES: usize = 4_096;

pub const MAX_FLOW_EDGES: usize = 8_192;

pub const MAX_FLOW_BOUNDARIES: usize = 4_096;

pub const MAX_FLOW_STDOUT_BYTES: usize = 64 * 1024;

pub const MAX_FLOW_SLICE_BYTES: usize = 64 * 1024 * 1024;

/// How the root of a flow is named.
#[derive(Clone, Copy, Debug, PartialEq, Eq, Structural)]
pub enum FlowRootKind {
    FullSymbol,
}

impl DeepView for FlowRootKind {
    type V = FlowRootKind;

    open spec fn deep_view(&self) -> FlowRootKind {
        *self
    }
}

impl FlowRootKind {
    /// The name that is written for a value.
    pub open spec fn name(self) -> Seq<char> {
        match self {
            FlowRootKind::FullSymbol => "FULL_SYMBOL"@,
        }
    }
}

impl Record for FlowRootKind {
    open spec fn json(v: FlowRootKind) -> JsonModel {
        JsonModel::Str(v.name())
    }

    fn copied(&self) -> (r: FlowRootKind) {
        *self
    }

    fn same_as(&self, other: &FlowRootKind) -> (r: bool) {
        *self == *other
    }

    fn to_json(&self) -> (r: Json) {
        let name = match self {
            FlowRootKind::FullSymbol => "FULL_SYMBOL",
        };
        Json::Str(name.to_owned())
    }
}

/// Which way a flow is followed.
#[derive(Clone, Copy, Debug, PartialEq, Eq, Structural)]
pub enum FlowDirection {
    Downstream,
}

impl DeepView for FlowDirection {
    type V = FlowDirection;

    open spec fn deep_view(&self) -> FlowDirection {
        *self
    }
}

impl FlowDirection {
    /// The name that is written for a value.
    pub open spec fn name(self) -> Seq<char> {
        match self {
            FlowDirection::Downstream => "DOWNSTREAM"@,
        }
    }
}

impl Record for FlowDirection {
    open spec fn json(v: FlowDirection) -> JsonModel {
        JsonModel::Str(v.name())
    }

    fn copied(&self) -> (r: FlowDirection) {
        *self
    }

    fn same_as(&self, other: &FlowDirection) -> (r: bool) {
        *self == *other
    }

    fn to_json(&self) -> (r: Json) {
        let name = match self {
            FlowDirection::Downstream => "DOWNSTREAM",
        };
        Json::Str(name.to_owned())
    }
}

/// What the order of a relation rests on.
#[derive(Clone, Copy, Debug, PartialEq, Eq, Structural)]
pub enum FlowOrderAuthority {
    UnorderedStaticRelation,
    CompilerCfg,
    Unknown,
}

impl DeepView for FlowOrderAuthority {
    type V = FlowOrderAuthority;

    open spec fn deep_view(&self) -> FlowOrderAuthority {
        *self
    }
}

impl FlowOrderAuthority {
    /// The name that is written for a value.
    pub open spec fn name(self) -> Seq<char> {
        match self {
            FlowOrderAuthority::UnorderedStaticRelation => "UNORDERED_STATIC_RELATION"@,
            FlowOrderAuthority::CompilerCfg => "COMPILER_CFG"@,
            FlowOrderAuthority::Unknown => "UNKNOWN"@,
        }
    }
}

impl Record for FlowOrderAuthority {
    open spec fn json(v: FlowOrderAuthority) -> JsonModel {
        JsonModel::Str(v.name())
    }

    fn copied(&self) -> (r: FlowOrderAuthority) {
        *self
    }

    fn same_as(&self, other: &FlowOrderAuthority) -> (r: bool) {
        *self == *other
    }

    fn to_json(&self) -> (r: Json) {
        let name = match self {
            FlowOrderAuthority::UnorderedStaticRelation => "UNORDERED_STATIC_RELATION",
            FlowOrderAuthority::CompilerCfg => "COMPILER_CFG",
            FlowOrderAuthority::Unknown => "UNKNOWN",
        };
        Json::Str(name.to_owned())
    }
}

/// Whether the flow was followed to its end.
#[derive(Clone, Copy, Debug, PartialEq, Eq, Structural)]
pub enum FlowStatus {
    Complete,
    Truncated,
}

impl DeepView for FlowStatus {
    type V = FlowStatus;

    open spec fn deep_view(&self) -> FlowStatus {
        *self
    }
}

impl FlowStatus {
    /// The name that is written for a value.
    pub open spec fn name(self) -> Seq<char> {
        match self {
            FlowStatus::Complete => "COMPLETE"@,
            FlowStatus::Truncated => "TRUNCATED"@,
        }
    }
}

impl Record for FlowStatus {
    open spec fn json(v: FlowStatus) -> JsonModel {
        JsonModel::Str(v.name())
    }

    fn copied(&self) -> (r: FlowStatus) {
        *self
    }

    fn same_as(&self, other: &FlowStatus) -> (r: bool) {
        *self == *other
    }

    fn to_json(&self) -> (r: Json) {
        let name = match self {
            FlowStatus::Complete => "COMPLETE",
            FlowStatus::Truncated => "TRUNCATED",
        };
        Json::Str(name.to_owned())
    }
}

/// How certain a slice is.
#[derive(Clone, Copy, Debug, PartialEq, Eq, Structural)]
pub enum FlowCertainty {
    Verified,
    Unsure,
}

impl DeepView for FlowCertainty {
    type V = FlowCertainty;

    open spec fn deep_view(&self) -> FlowCertainty {
        *self
    }
}

impl FlowCertainty {
    /// The name that is written for a value.
    pub open spec fn name(self) -> Seq<char> {
        match self {
            FlowCertainty::Verified => "VERIFIED"@,
            FlowCertainty::Unsure => "UNSURE"@,
        }
    }
}

impl Record for FlowCertainty {
    open spec fn json(v: FlowCertainty) -> JsonModel {
        JsonModel::Str(v.name())
    }

    fn copied(&self) -> (r: FlowCertainty) {
        *self
    }

    fn same_as(&self, other: &FlowCertainty) -> (r: bool) {
        *self == *other
    }

    fn to_json(&self) -> (r: Json) {
        let name = match self {
            FlowCertainty::Verified => "VERIFIED",
            FlowCertainty::Unsure => "UNSURE",
        };
        Json::Str(name.to_owned())
    }
}

/// What a node of a flow stands for.
#[derive(Clone, Copy, Debug, PartialEq, Eq, Structural)]
pub enum FlowNodeKind {
    Callable,
    Boundary,
}

impl DeepView for FlowNodeKind {
    type V = FlowNodeKind;

    open spec fn deep_view(&self) -> FlowNodeKind {
        *self
    }
}

impl FlowNodeKind {
    /// The name that is written for a value.
    pub open spec fn name(self) -> Seq<char> {
        match self {
            FlowNodeKind::Callable => "CALLABLE"@,
            FlowNodeKind::Boundary => "BOUNDARY"@,
        }
    }
}

impl Record for FlowNodeKind {
    open spec fn json(v: FlowNodeKind) -> JsonModel {
        JsonModel::Str(v.name())
    }

    fn copied(&self) -> (r: FlowNodeKind) {
        *self
    }

    fn same_as(&self, other: &FlowNodeKind) -> (r: bool) {
        *self == *other
    }

    fn to_json(&self) -> (r: Json) {
        let name = match self {
            FlowNodeKind::Callable => "CALLABLE",
            FlowNodeKind::Boundary => "BOUNDARY",
        };
        Json::Str(name.to_owned())
    }
}

/// The bounds of a slice.
#[derive(Debug, PartialEq, Eq)]
pub struct FlowBudgets {
    pub max_depth: usize,
    pub max_nodes: usize,
    pub max_edges: usize,
    pub max_boundaries: usize,
    pub max_stdout_bytes: usize,
    pub max_slice_bytes: usize,
}

/// The model of a [`FlowBudgets`].
pub struct FlowBudgetsModel {
    pub max_depth: usize,
    pub max_nodes: usize,
    pub max_edges: usize,
    pub max_boundaries: usize,
    pub max_stdout_bytes: usize,
    pub max_slice_bytes: usize,
}

impl DeepView for FlowBudgets {
    type V = FlowBudgetsModel;

    open spec fn deep_view(&self) -> FlowBudgetsModel {
        FlowBudgetsModel {
            max_depth: self.max_depth.deep_view(),
            max_nodes: self.max_nodes.deep_view(),
            max_edges: self.max_edges.deep_view(),
            max_boundaries: self.max_boundaries.deep_view(),
            max_stdout_bytes: self.max_stdout_bytes.deep_view(),
            max_slice_bytes: self.max_slice_bytes.deep_view(),
        }
    }
}

impl Record for FlowBudgets {
    open spec fn json(v: FlowBudgetsModel) -> JsonModel {
        JsonModel::object()
            .with("maxDepth"@, <usize as Record>::json(v.max_depth))
            .with("maxNodes"@, <usize as Record>::json(v.max_nodes))
            .with("maxEdges"@, <usize as Record>::json(v.max_edges))
            .with("maxBoundaries"@, <usize as Record>::json(v.max_boundaries))
            .with("maxStdoutBytes"@, <usize as Record>::json(v.max_stdout_bytes))
            .with("maxSliceBytes"@, <usize as Record>::json(v.max_slice_bytes))
    }

    fn copied(&self) -> (r: FlowBudgets) {
        FlowBudgets {
            max_depth: self.max_depth.copied(),
            max_nodes: self.max_nodes.copied(),
            max_edges: self.max_edges.copied(),
            max_boundaries: self.max_boundaries.copied(),
            max_stdout_bytes: self.max_stdout_bytes.copied(),
            max_slice_bytes: self.max_slice_bytes.copied(),
        }
    }

    fn same_as(&self, other: &FlowBudgets) -> (r: bool) {
        self.max_depth.same_as(&other.max_depth)
            && self.max_nodes.same_as(&other.max_nodes)
            && self.max_edges.same_as(&other.max_edges)
            && self.max_boundaries.same_as(&other.max_boundaries)
            && self.max_stdout_bytes.same_as(&other.max_stdout_bytes)
            && self.max_slice_bytes.same_as(&other.max_slice_bytes)
    }

    fn to_json(&self) -> (r: Json) {
        Json::object()
            .with("maxDepth", self.max_depth.to_json())
            .with("maxNodes", self.max_nodes.to_json())
            .with("maxEdges", self.max_edges.to_json())
            .with("maxBoundaries", self.max_boundaries.to_json())
            .with("maxStdoutBytes", self.max_stdout_bytes.to_json())
            .with("maxSliceBytes", self.max_slice_bytes.to_json())
    }
}

/// What a slice is asked for.
#[derive(Debug, PartialEq, Eq)]
pub struct FlowRequest {
    pub thread_id: String,
    pub thread_authority_digest: String,
    pub fact_set_id: String,
    pub fact_set_authority_digest: String,
    pub pair_id: String,
    pub member_alias: String,
    pub root_kind: FlowRootKind,
    pub root: String,
    pub direction: FlowDirection,
    pub budgets: FlowBudgets,
}

/// The model of a [`FlowRequest`].
pub struct FlowRequestModel {
    pub thread_id: Seq<char>,
    pub thread_authority_digest: Seq<char>,
    pub fact_set_id: Seq<char>,
    pub fact_set_authority_digest: Seq<char>,
    pub pair_id: Seq<char>,
    pub member_alias: Seq<char>,
    pub root_kind: FlowRootKind,
    pub root: Seq<char>,
    pub direction: FlowDirection,
    pub budgets: FlowBudgetsModel,
}

impl DeepView for FlowRequest {
    type V = FlowRequestModel;

    open spec fn deep_view(&self) -> FlowRequestModel {
        FlowRequestModel {
            thread_id: self.thread_id.deep_view(),
            thread_authority_digest: self.thread_authority_digest.deep_view(),
            fact_set_id: self.fact_set_id.deep_view(),
            fact_set_authority_digest: self.fact_set_authority_digest.deep_view(),
            pair_id: self.pair_id.deep_view(),
            member_alias: self.member_alias.deep_view(),
            root_kind: self.root_kind.deep_view(),
            root: self.root.deep_view(),
            direction: self.direction.deep_view(),
            budgets: self.budgets.deep_view(),
        }
    }
}

impl Record for FlowRequest {
    open spec fn json(v: FlowRequestModel) -> JsonModel {
        JsonModel::object()
            .with("threadId"@, <String as Record>::json(v.thread_id))
            .with("threadAuthorityDigest"@, <String as Record>::json(v.thread_authority_digest))
            .with("factSetId"@, <String as Record>::json(v.fact_set_id))
            .with("factSetAuthorityDigest"@, <String as Record>::json(v.fact_set_authority_digest))
            .with("pairId"@, <String as Record>::json(v.pair_id))
            .with("memberAlias"@, <String as Record>::json(v.member_alias))
            .with("rootKind"@, <FlowRootKind as Record>::json(v.root_kind))
            .with("root"@, <String as Record>::json(v.root))
            .with("direction"@, <FlowDirection as Record>::json(v.direction))
            .with("budgets"@, <FlowBudgets as Record>::json(v.budgets))
    }

    fn copied(&self) -> (r: FlowRequest) {
        FlowRequest {
            thread_id: self.thread_id.copied(),
            thread_authority_digest: self.thread_authority_digest.copied(),
            fact_set_id: self.fact_set_id.copied(),
            fact_set_authority_digest: self.fact_set_authority_digest.copied(),
            pair_id: self.pair_id.copied(),
            member_alias: self.member_alias.copied(),
            root_kind: self.root_kind.copied(),
            root: self.root.copied(),
            direction: self.direction.copied(),
            budgets: self.budgets.copied(),
        }
    }

    fn same_as(&self, other: &FlowRequest) -> (r: bool) {
        self.thread_id.same_as(&other.thread_id)
            && self.thread_authority_digest.same_as(&other.thread_authority_digest)
            && self.fact_set_id.same_as(&other.fact_set_id)
            && self.fact_set_authority_digest.same_as(&other.fact_set_authority_digest)
            && self.pair_id.same_as(&other.pair_id)
            && self.member_alias.same_as(&other.member_alias)
            && self.root_kind.same_as(&other.root_kind)
            && self.root.same_as(&other.root)
            && self.direction.same_as(&other.direction)
            && self.budgets.same_as(&other.budgets)
    }

    fn to_json(&self) -> (r: Json) {
        Json::object()
            .with("threadId", self.thread_id.to_json())
            .with("threadAuthorityDigest", self.thread_authority_digest.to_json())
            .with("factSetId", self.fact_set_id.to_json())
            .with("factSetAuthorityDigest", self.fact_set_authority_digest.to_json())
            .with("pairId", self.pair_id.to_json())
            .with("memberAlias", self.member_alias.to_json())
            .with("rootKind", self.root_kind.to_json())
            .with("root", self.root.to_json())
            .with("direction", self.direction.to_json())
            .with("budgets", self.budgets.to_json())
    }
}

/// The fact that a part of a slice rests on.
#[derive(Debug, PartialEq, Eq)]
pub struct FlowSupportRef {
    pub fact_id: String,
    pub fact_shard_ref: CasObject,
    pub provenance: CallableFactProvenance,
    pub input_payload_ref: CasObject,
    pub source: Option<SourceAnchor>,
}

/// The model of a [`FlowSupportRef`].
pub struct FlowSupportRefModel {
    pub fact_id: Seq<char>,
    pub fact_shard_ref: CasObjectModel,
    pub provenance: CallableFactProvenanceModel,
    pub input_payload_ref: CasObjectModel,
    pub source: Option<SourceAnchorModel>,
}

impl DeepView for FlowSupportRef {
    type V = FlowSupportRefModel;

    open spec fn deep_view(&self) -> FlowSupportRefModel {
        FlowSupportRefModel {
            fact_id: self.fact_id.deep_view(),
            fact_shard_ref: self.fact_shard_ref.deep_view(),
            provenance: self.provenance.deep_view(),
            input_payload_ref: self.input_payload_ref.deep_view(),
            source: self.source.deep_view(),
        }
    }
}

impl Record for FlowSupportRef {
    open spec fn json(v: FlowSupportRefModel) -> JsonModel {
        JsonModel::object()
            .with("factId"@, <String as Record>::json(v.fact_id))
            .with("factShardRef"@, <CasObject as Record>::json(v.fact_shard_ref))
            .with("provenance"@, <CallableFactProvenance as Record>::json(v.provenance))
            .with("inputPayloadRef"@, <CasObject as Record>::json(v.input_payload_ref))
            .with_some("source"@, match v.source { Some(x) => Some(<SourceAnchor as Record>::json(x)), None => None })
    }

    fn copied(&self) -> (r: FlowSupportRef) {
        FlowSupportRef {
            fact_id: self.fact_id.copied(),
            fact_shard_ref: self.fact_shard_ref.copied(),
            provenance: self.provenance.copied(),
            input_payload_ref: self.input_payload_ref.copied(),
            source: self.source.copied(),
        }
    }

    fn same_as(&self, other: &FlowSupportRef) -> (r: bool) {
        self.fact_id.same_as(&other.fact_id)
            && self.fact_shard_ref.same_as(&other.fact_shard_ref)
            && self.provenance.same_as(&other.provenance)
            && self.input_payload_ref.same_as(&other.input_payload_ref)
            && self.source.same_as(&other.source)
    }

    fn to_json(&self) -> (r: Json) {
        Json::object()
            .with("factId", self.fact_id.to_json())
            .with("factShardRef", self.fact_shard_ref.to_json())
            .with("provenance", self.provenance.to_json())
            .with("inputPayloadRef", self.input_payload_ref.to_json())
            .with_some("source", match &self.source { Some(x) => Some(x.to_json()), None => None })
    }
}

/// A node of a slice.
#[derive(Debug, PartialEq, Eq)]
pub struct FlowNode {
    pub node_id: String,
    pub node_kind: FlowNodeKind,
    pub member_alias: String,
    pub service_alias: String,
    pub repository_namespace: String,
    pub symbol_identity: String,
    pub depth: usize,
    pub order_authority: FlowOrderAuthority,
    pub support_refs: Vec<FlowSupportRef>,
}

/// The model of a [`FlowNode`].
pub struct FlowNodeModel {
    pub node_id: Seq<char>,
    pub node_kind: FlowNodeKind,
    pub member_alias: Seq<char>,
    pub service_alias: Seq<char>,
    pub repository_namespace: Seq<char>,
    pub symbol_identity: Seq<char>,
    pub depth: usize,
    pub order_authority: FlowOrderAuthority,
    pub support_refs: Seq<FlowSupportRefModel>,
}

impl DeepView for FlowNode {
    type V = FlowNodeModel;

    open spec fn deep_view(&self) -> FlowNodeModel {
        FlowNodeModel {
            node_id: self.node_id.deep_view(),
            node_kind: self.node_kind.deep_view(),
            member_alias: self.member_alias.deep_view(),
            service_alias: self.service_alias.deep_view(),
            repository_namespace: self.repository_namespace.deep_view(),
            symbol_identity: self.symbol_identity.deep_view(),
            depth: self.depth.deep_view(),
            order_authority: self.order_authority.deep_view(),
            support_refs: self.support_refs.deep_view(),
        }
    }
}

impl Record for FlowNode {
    open spec fn json(v: FlowNodeModel) -> JsonModel {
        JsonModel::object()
            .with("nodeId"@, <String as Record>::json(v.node_id))
            .with("nodeKind"@, <FlowNodeKind as Record>::json(v.node_kind))
            .with("memberAlias"@, <String as Record>::json(v.member_alias))
            .with("serviceAlias"@, <String as Record>::json(v.service_alias))
            .with("repositoryNamespace"@, <String as Record>::json(v.repository_namespace))
            .with("symbolIdentity"@, <String as Record>::json(v.symbol_identity))
            .with("depth"@, <usize as Record>::json(v.depth))
            .with("orderAuthority"@, <FlowOrderAuthority as Record>::json(v.order_authority))
            .with("supportRefs"@, <Vec<FlowSupportRef> as Record>::json(v.support_refs))
    }

    fn copied(&self) -> (r: FlowNode) {
        FlowNode {
            node_id: self.node_id.copied(),
            node_kind: self.node_kind.copied(),
            member_alias: self.member_alias.copied(),
            service_alias: self.service_alias.copied(),
            repository_namespace: self.repository_namespace.copied(),
            symbol_identity: self.symbol_identity.copied(),
            depth: self.depth.copied(),
            order_authority: self.order_authority.copied(),
            support_refs: self.support_refs.copied(),
        }
    }

    fn same_as(&self, other: &FlowNode) -> (r: bool) {
        self.node_id.same_as(&other.node_id)
            && self.node_kind.same_as(&other.node_kind)
            && self.member_alias.same_as(&other.member_alias)
            && self.service_alias.same_as(&other.service_alias)
            && self.repository_namespace.same_as(&other.repository_namespace)
            && self.symbol_identity.same_as(&other.symbol_identity)
            && self.depth.same_as(&other.depth)
            && self.order_authority.same_as(&other.order_authority)
            && self.support_refs.same_as(&other.support_refs)
    }

    fn to_json(&self) -> (r: Json) {
        Json::object()
            .with("nodeId", self.node_id.to_json())
            .with("nodeKind", self.node_kind.to_json())
            .with("memberAlias", self.member_alias.to_json())
            .with("serviceAlias", self.service_alias.to_json())
            .with("repositoryNamespace", self.repository_namespace.to_json())
            .with("symbolIdentity", self.symbol_identity.to_json())
            .with("depth", self.depth.to_json())
            .with("orderAuthority", self.order_authority.to_json())
            .with("supportRefs", self.support_refs.to_json())
    }
}

impl Keyed for FlowNode {
    open spec fn key(v: FlowNodeModel) -> Seq<char> {
        v.node_id
    }

    fn key_text(&self) -> (r: &String) {
        &self.node_id
    }
}

/// An edge of a slice.
#[derive(Debug, PartialEq, Eq)]
pub struct FlowEdge {
    pub edge_id: String,
    pub source_node_id: String,
    pub target_node_id: String,
    pub source_member_alias: String,
    pub source_service_alias: String,
    pub source_repository_namespace: String,
    pub target_member_alias: String,
    pub target_service_alias: String,
    pub target_repository_namespace: String,
    pub relation_kind: String,
    pub relationship_authority: RelationshipAuthority,
    pub order_authority: FlowOrderAuthority,
    pub cfg_graph_id: Option<String>,
    pub cfg_node_ids: Vec<u64>,
    pub support_refs: Vec<FlowSupportRef>,
}

/// The model of a [`FlowEdge`].
pub struct FlowEdgeModel {
    pub edge_id: Seq<char>,
    pub source_node_id: Seq<char>,
    pub target_node_id: Seq<char>,
    pub source_member_alias: Seq<char>,
    pub source_service_alias: Seq<char>,
    pub source_repository_namespace: Seq<char>,
    pub target_member_alias: Seq<char>,
    pub target_service_alias: Seq<char>,
    pub target_repository_namespace: Seq<char>,
    pub relation_kind: Seq<char>,
    pub relationship_authority: RelationshipAuthority,
    pub order_authority: FlowOrderAuthority,
    pub cfg_graph_id: Option<Seq<char>>,
    pub cfg_node_ids: Seq<u64>,
    pub support_refs: Seq<FlowSupportRefModel>,
}

impl DeepView for FlowEdge {
    type V = FlowEdgeModel;

    open spec fn deep_view(&self) -> FlowEdgeModel {
        FlowEdgeModel {
            edge_id: self.edge_id.deep_view(),
            source_node_id: self.source_node_id.deep_view(),
            target_node_id: self.target_node_id.deep_view(),
            source_member_alias: self.source_member_alias.deep_view(),
            source_service_alias: self.source_service_alias.deep_view(),
            source_repository_namespace: self.source_repository_namespace.deep_view(),
            target_member_alias: self.target_member_alias.deep_view(),
            target_service_alias: self.target_service_alias.deep_view(),
            target_repository_namespace: self.target_repository_namespace.deep_view(),
            relation_kind: self.relation_kind.deep_view(),
            relationship_authority: self.relationship_authority.deep_view(),
            order_authority: self.order_authority.deep_view(),
            cfg_graph_id: self.cfg_graph_id.deep_view(),
            cfg_node_ids: self.cfg_node_ids.deep_view(),
            support_refs: self.support_refs.deep_view(),
        }
    }
}

impl Record for FlowEdge {
    open spec fn json(v: FlowEdgeModel) -> JsonModel {
        JsonModel::object()
            .with("edgeId"@, <String as Record>::json(v.edge_id))
            .with("sourceNodeId"@, <String as Record>::json(v.source_node_id))
            .with("targetNodeId"@, <String as Record>::json(v.target_node_id))
            .with("sourceMemberAlias"@, <String as Record>::json(v.source_member_alias))
            .with("sourceServiceAlias"@, <String as Record>::json(v.source_service_alias))
            .with("sourceRepositoryNamespace"@, <String as Record>::json(v.source_repository_namespace))
            .with("targetMemberAlias"@, <String as Record>::json(v.target_member_alias))
            .with("targetServiceAlias"@, <String as Record>::json(v.target_service_alias))
            .with("targetRepositoryNamespace"@, <String as Record>::json(v.target_repository_namespace))
            .with("relationKind"@, <String as Record>::json(v.relation_kind))
            .with("relationshipAuthority"@, <RelationshipAuthority as Record>::json(v.relationship_authority))
            .with("orderAuthority"@, <FlowOrderAuthority as Record>::json(v.order_authority))
            .with_some("cfgGraphId"@, match v.cfg_graph_id { Some(x) => Some(<String as Record>::json(x)), None => None })
            .with_some("cfgNodeIds"@, if v.cfg_node_ids.len() == 0 { None } else { Some(<Vec<u64> as Record>::json(v.cfg_node_ids)) })
            .with("supportRefs"@, <Vec<FlowSupportRef> as Record>::json(v.support_refs))
    }

    fn copied(&self) -> (r: FlowEdge) {
        FlowEdge {
            edge_id: self.edge_id.copied(),
            source_node_id: self.source_node_id.copied(),
            target_node_id: self.target_node_id.copied(),
            source_member_alias: self.source_member_alias.copied(),
            source_service_alias: self.source_service_alias.copied(),
            source_repository_namespace: self.source_repository_namespace.copied(),
            target_member_alias: self.target_member_alias.copied(),
            target_service_alias: self.target_service_alias.copied(),
            target_repository_namespace: self.target_repository_namespace.copied(),
            relation_kind: self.relation_kind.copied(),
            relationship_authority: self.relationship_authority.copied(),
            order_authority: self.order_authority.copied(),
            cfg_graph_id: self.cfg_graph_id.copied(),
            cfg_node_ids: self.cfg_node_ids.copied(),
            support_refs: self.support_refs.copied(),
        }
    }

    fn same_as(&self, other: &FlowEdge) -> (r: bool) {
        self.edge_id.same_as(&other.edge_id)
            && self.source_node_id.same_as(&other.source_node_id)
            && self.target_node_id.same_as(&other.target_node_id)
            && self.source_member_alias.same_as(&other.source_member_alias)
            && self.source_service_alias.same_as(&other.source_service_alias)
            && self.source_repository_namespace.same_as(&other.source_repository_namespace)
            && self.target_member_alias.same_as(&other.target_member_alias)
            && self.target_service_alias.same_as(&other.target_service_alias)
            && self.target_repository_namespace.same_as(&other.target_repository_namespace)
            && self.relation_kind.same_as(&other.relation_kind)
            && self.relationship_authority.same_as(&other.relationship_authority)
            && self.order_authority.same_as(&other.order_authority)
            && self.cfg_graph_id.same_as(&other.cfg_graph_id)
            && self.cfg_node_ids.same_as(&other.cfg_node_ids)
            && self.support_refs.same_as(&other.support_refs)
    }

    fn to_json(&self) -> (r: Json) {
        Json::object()
            .with("edgeId", self.edge_id.to_json())
            .with("sourceNodeId", self.source_node_id.to_json())
            .with("targetNodeId", self.target_node_id.to_json())
            .with("sourceMemberAlias", self.source_member_alias.to_json())
            .with("sourceServiceAlias", self.source_service_alias.to_json())
            .with("sourceRepositoryNamespace", self.source_repository_namespace.to_json())
            .with("targetMemberAlias", self.target_member_alias.to_json())
            .with("targetServiceAlias", self.target_service_alias.to_json())
            .with("targetRepositoryNamespace", self.target_repository_namespace.to_json())
            .with("relationKind", self.relation_kind.to_json())
            .with("relationshipAuthority", self.relationship_authority.to_json())
            .with("orderAuthority", self.order_authority.to_json())
            .with_some("cfgGraphId", match &self.cfg_graph_id { Some(x) => Some(x.to_json()), None => None })
            .with_some("cfgNodeIds", if self.cfg_node_ids.len() == 0 { None } else { Some(self.cfg_node_ids.to_json()) })
            .with("supportRefs", self.support_refs.to_json())
    }
}

impl Keyed for FlowEdge {
    open spec fn key(v: FlowEdgeModel) -> Seq<char> {
        v.edge_id
    }

    fn key_text(&self) -> (r: &String) {
        &self.edge_id
    }
}

/// The control-flow graph of a callable of a slice.
#[derive(Debug, PartialEq, Eq)]
pub struct FlowControlRegion {
    pub region_id: String,
    pub owner_node_id: String,
    pub graph: LocalCfgPayload,
    pub support: LocalCfgSupport,
}

/// The model of a [`FlowControlRegion`].
pub struct FlowControlRegionModel {
    pub region_id: Seq<char>,
    pub owner_node_id: Seq<char>,
    pub graph: LocalCfgPayloadModel,
    pub support: LocalCfgSupportModel,
}

impl DeepView for FlowControlRegion {
    type V = FlowControlRegionModel;

    open spec fn deep_view(&self) -> FlowControlRegionModel {
        FlowControlRegionModel {
            region_id: self.region_id.deep_view(),
            owner_node_id: self.owner_node_id.deep_view(),
            graph: self.graph.deep_view(),
            support: self.support.deep_view(),
        }
    }
}

impl Record for FlowControlRegion {
    open spec fn json(v: FlowControlRegionModel) -> JsonModel {
        JsonModel::object()
            .with("regionId"@, <String as Record>::json(v.region_id))
            .with("ownerNodeId"@, <String as Record>::json(v.owner_node_id))
            .with("graph"@, <LocalCfgPayload as Record>::json(v.graph))
            .with("support"@, <LocalCfgSupport as Record>::json(v.support))
    }

    fn copied(&self) -> (r: FlowControlRegion) {
        FlowControlRegion {
            region_id: self.region_id.copied(),
            owner_node_id: self.owner_node_id.copied(),
            graph: self.graph.copied(),
            support: self.support.copied(),
        }
    }

    fn same_as(&self, other: &FlowControlRegion) -> (r: bool) {
        self.region_id.same_as(&other.region_id)
            && self.owner_node_id.same_as(&other.owner_node_id)
            && self.graph.same_as(&other.graph)
            && self.support.same_as(&other.support)
    }

    fn to_json(&self) -> (r: Json) {
        Json::object()
            .with("regionId", self.region_id.to_json())
            .with("ownerNodeId", self.owner_node_id.to_json())
            .with("graph", self.graph.to_json())
            .with("support", self.support.to_json())
    }
}

impl Keyed for FlowControlRegion {
    open spec fn key(v: FlowControlRegionModel) -> Seq<char> {
        v.region_id
    }

    fn key_text(&self) -> (r: &String) {
        &self.region_id
    }
}

/// A place where a slice stops or cannot be certain.
#[derive(Debug, PartialEq, Eq)]
pub struct FlowBoundary {
    pub boundary_id: String,
    pub code: String,
    pub subject: String,
    pub required_checks: Vec<String>,
    pub support_refs: Vec<FlowSupportRef>,
}

/// The model of a [`FlowBoundary`].
pub struct FlowBoundaryModel {
    pub boundary_id: Seq<char>,
    pub code: Seq<char>,
    pub subject: Seq<char>,
    pub required_checks: Seq<Seq<char>>,
    pub support_refs: Seq<FlowSupportRefModel>,
}

impl DeepView for FlowBoundary {
    type V = FlowBoundaryModel;

    open spec fn deep_view(&self) -> FlowBoundaryModel {
        FlowBoundaryModel {
            boundary_id: self.boundary_id.deep_view(),
            code: self.code.deep_view(),
            subject: self.subject.deep_view(),
            required_checks: self.required_checks.deep_view(),
            support_refs: self.support_refs.deep_view(),
        }
    }
}

impl Record for FlowBoundary {
    open spec fn json(v: FlowBoundaryModel) -> JsonModel {
        JsonModel::object()
            .with("boundaryId"@, <String as Record>::json(v.boundary_id))
            .with("code"@, <String as Record>::json(v.code))
            .with("subject"@, <String as Record>::json(v.subject))
            .with("requiredChecks"@, <Vec<String> as Record>::json(v.required_checks))
            .with("supportRefs"@, <Vec<FlowSupportRef> as Record>::json(v.support_refs))
    }

    fn copied(&self) -> (r: FlowBoundary) {
        FlowBoundary {
            boundary_id: self.boundary_id.copied(),
            code: self.code.copied(),
            subject: self.subject.copied(),
            required_checks: self.required_checks.copied(),
            support_refs: self.support_refs.copied(),
        }
    }

    fn same_as(&self, other: &FlowBoundary) -> (r: bool) {
        self.boundary_id.same_as(&other.boundary_id)
            && self.code.same_as(&other.code)
            && self.subject.same_as(&other.subject)
            && self.required_checks.same_as(&other.required_checks)
            && self.support_refs.same_as(&other.support_refs)
    }

    fn to_json(&self) -> (r: Json) {
        Json::object()
            .with("boundaryId", self.boundary_id.to_json())
            .with("code", self.code.to_json())
            .with("subject", self.subject.to_json())
            .with("requiredChecks", self.required_checks.to_json())
            .with("supportRefs", self.support_refs.to_json())
    }
}

impl Keyed for FlowBoundary {
    open spec fn key(v: FlowBoundaryModel) -> Seq<char> {
        v.boundary_id
    }

    fn key_text(&self) -> (r: &String) {
        &self.boundary_id
    }
}

/// The numbers of the parts of a slice.
#[derive(Debug, PartialEq, Eq)]
pub struct FlowCounts {
    pub nodes: usize,
    pub edges: usize,
    pub boundaries: usize,
    pub control_flow_regions: usize,
}

/// The model of a [`FlowCounts`].
pub struct FlowCountsModel {
    pub nodes: usize,
    pub edges: usize,
    pub boundaries: usize,
    pub control_flow_regions: usize,
}

impl DeepView for FlowCounts {
    type V = FlowCountsModel;

    open spec fn deep_view(&self) -> FlowCountsModel {
        FlowCountsModel {
            nodes: self.nodes.deep_view(),
            edges: self.edges.deep_view(),
            boundaries: self.boundaries.deep_view(),
            control_flow_regions: self.control_flow_regions.deep_view(),
        }
    }
}

impl Record for FlowCounts {
    open spec fn json(v: FlowCountsModel) -> JsonModel {
        JsonModel::object()
            .with("nodes"@, <usize as Record>::json(v.nodes))
            .with("edges"@, <usize as Record>::json(v.edges))
            .with("boundaries"@, <usize as Record>::json(v.boundaries))
            .with_some("controlFlowRegions"@, if v.control_flow_regions == 0 { None } else { Some(<usize as Record>::json(v.control_flow_regions)) })
    }

    fn copied(&self) -> (r: FlowCounts) {
        FlowCounts {
            nodes: self.nodes.copied(),
            edges: self.edges.copied(),
            boundaries: self.boundaries.copied(),
            control_flow_regions: self.control_flow_regions.copied(),
        }
    }

    fn same_as(&self, other: &FlowCounts) -> (r: bool) {
        self.nodes.same_as(&other.nodes)
            && self.edges.same_as(&other.edges)
            && self.boundaries.same_as(&other.boundaries)
            && self.control_flow_regions.same_as(&other.control_flow_regions)
    }

    fn to_json(&self) -> (r: Json) {
        Json::object()
            .with("nodes", self.nodes.to_json())
            .with("edges", self.edges.to_json())
            .with("boundaries", self.boundaries.to_json())
            .with_some("controlFlowRegions", if self.control_flow_regions == 0 { None } else { Some(self.control_flow_regions.to_json()) })
    }
}

/// A bounded static flow from one callable.
#[derive(Debug, PartialEq, Eq)]
pub struct FlowSlice {
    pub schema: String,
    pub flow_id: String,
    pub request: FlowRequest,
    pub root_node_id: String,
    pub nodes: Vec<FlowNode>,
    pub edges: Vec<FlowEdge>,
    pub boundaries: Vec<FlowBoundary>,
    pub control_flow_regions: Vec<FlowControlRegion>,
    pub counts: FlowCounts,
    pub status: FlowStatus,
    pub certainty: FlowCertainty,
    pub verification_obligations: Vec<String>,
    pub parent_fact_shards: Vec<CasObject>,
}

/// The model of a [`FlowSlice`].
pub struct FlowSliceModel {
    pub schema: Seq<char>,
    pub flow_id: Seq<char>,
    pub request: FlowRequestModel,
    pub root_node_id: Seq<char>,
    pub nodes: Seq<FlowNodeModel>,
    pub edges: Seq<FlowEdgeModel>,
    pub boundaries: Seq<FlowBoundaryModel>,
    pub control_flow_regions: Seq<FlowControlRegionModel>,
    pub counts: FlowCountsModel,
    pub status: FlowStatus,
    pub certainty: FlowCertainty,
    pub verification_obligations: Seq<Seq<char>>,
    pub parent_fact_shards: Seq<CasObjectModel>,
}

impl DeepView for FlowSlice {
    type V = FlowSliceModel;

    open spec fn deep_view(&self) -> FlowSliceModel {
        FlowSliceModel {
            schema: self.schema.deep_view(),
            flow_id: self.flow_id.deep_view(),
            request: self.request.deep_view(),
            root_node_id: self.root_node_id.deep_view(),
            nodes: self.nodes.deep_view(),
            edges: self.edges.deep_view(),
            boundaries: self.boundaries.deep_view(),
            control_flow_regions: self.control_flow_regions.deep_view(),
            counts: self.counts.deep_view(),
            status: self.status.deep_view(),
            certainty: self.certainty.deep_view(),
            verification_obligations: self.verification_obligations.deep_view(),
            parent_fact_shards: self.parent_fact_shards.deep_view(),
        }
    }
}

impl Record for FlowSlice {
    open spec fn json(v: FlowSliceModel) -> JsonModel {
        JsonModel::object()
            .with("schema"@, <String as Record>::json(v.schema))
            .with("flowId"@, <String as Record>::json(v.flow_id))
            .with("request"@, <FlowRequest as Record>::json(v.request))
            .with("rootNodeId"@, <String as Record>::json(v.root_node_id))
            .with("nodes"@, <Vec<FlowNode> as Record>::json(v.nodes))
            .with("edges"@, <Vec<FlowEdge> as Record>::json(v.edges))
            .with("boundaries"@, <Vec<FlowBoundary> as Record>::json(v.boundaries))
            .with_some("controlFlowRegions"@, if v.control_flow_regions.len() == 0 { None } else { Some(<Vec<FlowControlRegion> as Record>::json(v.control_flow_regions)) })
            .with("counts"@, <FlowCounts as Record>::json(v.counts))
            .with("status"@, <FlowStatus as Record>::json(v.status))
            .with("certainty"@, <FlowCertainty as Record>::json(v.certainty))
            .with("verificationObligations"@, <Vec<String> as Record>::json(v.verification_obligations))
            .with("parentFactShards"@, <Vec<CasObject> as Record>::json(v.parent_fact_shards))
    }

    fn copied(&self) -> (r: FlowSlice) {
        FlowSlice {
            schema: self.schema.copied(),
            flow_id: self.flow_id.copied(),
            request: self.request.copied(),
            root_node_id: self.root_node_id.copied(),
            nodes: self.nodes.copied(),
            edges: self.edges.copied(),
            boundaries: self.boundaries.copied(),
            control_flow_regions: self.control_flow_regions.copied(),
            counts: self.counts.copied(),
            status: self.status.copied(),
            certainty: self.certainty.copied(),
            verification_obligations: self.verification_obligations.copied(),
            parent_fact_shards: self.parent_fact_shards.copied(),
        }
    }

    fn same_as(&self, other: &FlowSlice) -> (r: bool) {
        self.schema.same_as(&other.schema)
            && self.flow_id.same_as(&other.flow_id)
            && self.request.same_as(&other.request)
            && self.root_node_id.same_as(&other.root_node_id)
            && self.nodes.same_as(&other.nodes)
            && self.edges.same_as(&other.edges)
            && self.boundaries.same_as(&other.boundaries)
            && self.control_flow_regions.same_as(&other.control_flow_regions)
            && self.counts.same_as(&other.counts)
            && self.status.same_as(&other.status)
            && self.certainty.same_as(&other.certainty)
            && self.verification_obligations.same_as(&other.verification_obligations)
            && self.parent_fact_shards.same_as(&other.parent_fact_shards)
    }

    fn to_json(&self) -> (r: Json) {
        Json::object()
            .with("schema", self.schema.to_json())
            .with("flowId", self.flow_id.to_json())
            .with("request", self.request.to_json())
            .with("rootNodeId", self.root_node_id.to_json())
            .with("nodes", self.nodes.to_json())
            .with("edges", self.edges.to_json())
            .with("boundaries", self.boundaries.to_json())
            .with_some("controlFlowRegions", if self.control_flow_regions.len() == 0 { None } else { Some(self.control_flow_regions.to_json()) })
            .with("counts", self.counts.to_json())
            .with("status", self.status.to_json())
            .with("certainty", self.certainty.to_json())
            .with("verificationObligations", self.verification_obligations.to_json())
            .with("parentFactShards", self.parent_fact_shards.to_json())
    }
}

/// What is shown of a slice.
#[derive(Debug, PartialEq, Eq)]
pub struct FlowSliceProjection {
    pub schema: String,
    pub flow_id: String,
    pub root: String,
    pub member_alias: String,
    pub root_node_id: String,
    pub counts: FlowCounts,
    pub status: FlowStatus,
    pub certainty: FlowCertainty,
    pub order_authority: FlowOrderAuthority,
    pub verification_obligations: Vec<String>,
}

/// The model of a [`FlowSliceProjection`].
pub struct FlowSliceProjectionModel {
    pub schema: Seq<char>,
    pub flow_id: Seq<char>,
    pub root: Seq<char>,
    pub member_alias: Seq<char>,
    pub root_node_id: Seq<char>,
    pub counts: FlowCountsModel,
    pub status: FlowStatus,
    pub certainty: FlowCertainty,
    pub order_authority: FlowOrderAuthority,
    pub verification_obligations: Seq<Seq<char>>,
}

impl DeepView for FlowSliceProjection {
    type V = FlowSliceProjectionModel;

    open spec fn deep_view(&self) -> FlowSliceProjectionModel {
        FlowSliceProjectionModel {
            schema: self.schema.deep_view(),
            flow_id: self.flow_id.deep_view(),
            root: self.root.deep_view(),
            member_alias: self.member_alias.deep_view(),
            root_node_id: self.root_node_id.deep_view(),
            counts: self.counts.deep_view(),
            status: self.status.deep_view(),
            certainty: self.certainty.deep_view(),
            order_authority: self.order_authority.deep_view(),
            verification_obligations: self.verification_obligations.deep_view(),
        }
    }
}

impl Record for FlowSliceProjection {
    open spec fn json(v: FlowSliceProjectionModel) -> JsonModel {
        JsonModel::object()
            .with("schema"@, <String as Record>::json(v.schema))
            .with("flowId"@, <String as Record>::json(v.flow_id))
            .with("root"@, <String as Record>::json(v.root))
            .with("memberAlias"@, <String as Record>::json(v.member_alias))
            .with("rootNodeId"@, <String as Record>::json(v.root_node_id))
            .with("counts"@, <FlowCounts as Record>::json(v.counts))
            .with("status"@, <FlowStatus as Record>::json(v.status))
            .with("certainty"@, <FlowCertainty as Record>::json(v.certainty))
            .with("orderAuthority"@, <FlowOrderAuthority as Record>::json(v.order_authority))
            .with("verificationObligations"@, <Vec<String> as Record>::json(v.verification_obligations))
    }

    fn copied(&self) -> (r: FlowSliceProjection) {
        FlowSliceProjection {
            schema: self.schema.copied(),
            flow_id: self.flow_id.copied(),
            root: self.root.copied(),
            member_alias: self.member_alias.copied(),
            root_node_id: self.root_node_id.copied(),
            counts: self.counts.copied(),
            status: self.status.copied(),
            certainty: self.certainty.copied(),
            order_authority: self.order_authority.copied(),
            verification_obligations: self.verification_obligations.copied(),
        }
    }

    fn same_as(&self, other: &FlowSliceProjection) -> (r: bool) {
        self.schema.same_as(&other.schema)
            && self.flow_id.same_as(&other.flow_id)
            && self.root.same_as(&other.root)
            && self.member_alias.same_as(&other.member_alias)
            && self.root_node_id.same_as(&other.root_node_id)
            && self.counts.same_as(&other.counts)
            && self.status.same_as(&other.status)
            && self.certainty.same_as(&other.certainty)
            && self.order_authority.same_as(&other.order_authority)
            && self.verification_obligations.same_as(&other.verification_obligations)
    }

    fn to_json(&self) -> (r: Json) {
        Json::object()
            .with("schema", self.schema.to_json())
            .with("flowId", self.flow_id.to_json())
            .with("root", self.root.to_json())
            .with("memberAlias", self.member_alias.to_json())
            .with("rootNodeId", self.root_node_id.to_json())
            .with("counts", self.counts.to_json())
            .with("status", self.status.to_json())
            .with("certainty", self.certainty.to_json())
            .with("orderAuthority", self.order_authority.to_json())
            .with("verificationObligations", self.verification_obligations.to_json())
    }
}

/// A fact with the shard that holds it.
#[derive(Debug, PartialEq, Eq)]
pub struct IndexedFact {
    pub fact: CallableFact,
    pub shard_ref: CasObject,
}

/// The model of a [`IndexedFact`].
pub struct IndexedFactModel {
    pub fact: CallableFactModel,
    pub shard_ref: CasObjectModel,
}

impl DeepView for IndexedFact {
    type V = IndexedFactModel;

    open spec fn deep_view(&self) -> IndexedFactModel {
        IndexedFactModel {
            fact: self.fact.deep_view(),
            shard_ref: self.shard_ref.deep_view(),
        }
    }
}

impl Record for IndexedFact {
    open spec fn json(v: IndexedFactModel) -> JsonModel {
        JsonModel::object()
            .with("fact"@, <CallableFact as Record>::json(v.fact))
            .with("shardRef"@, <CasObject as Record>::json(v.shard_ref))
    }

    fn copied(&self) -> (r: IndexedFact) {
        IndexedFact {
            fact: self.fact.copied(),
            shard_ref: self.shard_ref.copied(),
        }
    }

    fn same_as(&self, other: &IndexedFact) -> (r: bool) {
        self.fact.same_as(&other.fact)
            && self.shard_ref.same_as(&other.shard_ref)
    }

    fn to_json(&self) -> (r: Json) {
        Json::object()
            .with("fact", self.fact.to_json())
            .with("shardRef", self.shard_ref.to_json())
    }
}

/// A callable that is still to be followed.
#[derive(Debug, PartialEq, Eq)]
pub struct FlowStep {
    pub symbol: String,
    pub depth: usize,
}

/// The model of a [`FlowStep`].
pub struct FlowStepModel {
    pub symbol: Seq<char>,
    pub depth: usize,
}

impl DeepView for FlowStep {
    type V = FlowStepModel;

    open spec fn deep_view(&self) -> FlowStepModel {
        FlowStepModel {
            symbol: self.symbol.deep_view(),
            depth: self.depth.deep_view(),
        }
    }
}

impl Record for FlowStep {
    open spec fn json(v: FlowStepModel) -> JsonModel {
        JsonModel::object()
            .with("symbol"@, <String as Record>::json(v.symbol))
            .with("depth"@, <usize as Record>::json(v.depth))
    }

    fn copied(&self) -> (r: FlowStep) {
        FlowStep {
            symbol: self.symbol.copied(),
            depth: self.depth.copied(),
        }
    }

    fn same_as(&self, other: &FlowStep) -> (r: bool) {
        self.symbol.same_as(&other.symbol)
            && self.depth.same_as(&other.depth)
    }

    fn to_json(&self) -> (r: Json) {
        Json::object()
            .with("symbol", self.symbol.to_json())
            .with("depth", self.depth.to_json())
    }
}

impl Keyed for IndexedFact {
    open spec fn key(v: IndexedFactModel) -> Seq<char> {
        v.fact.fact_id()
    }

    fn key_text(&self) -> (r: &String) {
        self.fact.fact_id()
    }
}

/// A slice with its bytes, the reference to them and what is shown of it.
pub struct PreparedFlowSlice {
    pub slice: FlowSlice,
    pub slice_bytes: Vec<u8>,
    pub slice_ref: CasObject,
    pub projection: FlowSliceProjection,
}

/// The model of a [`PreparedFlowSlice`].
pub struct PreparedFlowSliceModel {
    pub slice: FlowSliceModel,
    pub slice_bytes: Seq<u8>,
    pub slice_ref: CasObjectModel,
    pub projection: FlowSliceProjectionModel,
}

impl DeepView for PreparedFlowSlice {
    type V = PreparedFlowSliceModel;

    open spec fn deep_view(&self) -> PreparedFlowSliceModel {
        PreparedFlowSliceModel {
            slice: self.slice.deep_view(),
            slice_bytes: self.slice_bytes@,
            slice_ref: self.slice_ref.deep_view(),
            projection: self.projection.deep_view(),
        }
    }
}

/// The budgets for a depth.
pub open spec fn frozen_budgets(max_depth: usize) -> FlowBudgetsModel {
    FlowBudgetsModel {
        max_depth,
        max_nodes: MAX_FLOW_NODES,
        max_edges: MAX_FLOW_EDGES,
        max_boundaries: MAX_FLOW_BOUNDARIES,
        max_stdout_bytes: MAX_FLOW_STDOUT_BYTES,
        max_slice_bytes: MAX_FLOW_SLICE_BYTES,
    }
}

/// The outcome for some budgets: the frozen ones, to a depth of one to 32.
pub open spec fn budgets_checked(b: FlowBudgetsModel) -> Result<(), ErrorModel> {
    if b.max_depth == 0 || b.max_depth > MAX_FLOW_DEPTH || b != frozen_budgets(b.max_depth) {
        refused("flow budgets differ from the frozen profile"@)
    } else {
        Ok(())
    }
}

impl FlowBudgets {
    /// The frozen budgets, for a depth of one to 32.
    pub fn frozen(max_depth: usize) -> (r: Result<FlowBudgets, ClewError>)
        ensures
            outcome(r) == (if max_depth == 0 || max_depth > MAX_FLOW_DEPTH {
                refused("flow max depth must be between one and 32"@)
            } else {
                Ok(frozen_budgets(max_depth))
            }),
    {
        if max_depth == 0 || max_depth > MAX_FLOW_DEPTH {
            return Err(invalid("flow max depth must be between one and 32"));
        }
        Ok(
            FlowBudgets {
                max_depth,
                max_nodes: MAX_FLOW_NODES,
                max_edges: MAX_FLOW_EDGES,
                max_boundaries: MAX_FLOW_BOUNDARIES,
                max_stdout_bytes: MAX_FLOW_STDOUT_BYTES,
                max_slice_bytes: MAX_FLOW_SLICE_BYTES,
            },
        )
    }

    fn validate(&self) -> (r: Result<(), ClewError>)
        ensures
            outcome(r) == budgets_checked(self.deep_view()),
    {
        if self.max_depth == 0 || self.max_depth > MAX_FLOW_DEPTH || self.max_nodes
            != MAX_FLOW_NODES || self.max_edges != MAX_FLOW_EDGES || self.max_boundaries
            != MAX_FLOW_BOUNDARIES || self.max_stdout_bytes != MAX_FLOW_STDOUT_BYTES
            || self.max_slice_bytes != MAX_FLOW_SLICE_BYTES {
            return Err(invalid("flow budgets differ from the frozen profile"));
        }
        Ok(())
    }
}

/// An identifier made of a prefix and the digest of a JSON value.
pub open spec fn stable_id(prefix: Seq<char>, value: JsonModel) -> Seq<char> {
    prefix + ":"@ + after_prefix(json_digest(value), "sha256:"@)
}

fn make_id(prefix: &str, value: &Json) -> (r: String)
    ensures
        r@ == stable_id(prefix@, value.deep_view()),
{
    let digest = hash(value);
    let mut id = joined(prefix, ":");
    match strip_prefix(digest.as_str(), "sha256:") {
        Some(component) => {
            id.append(component.as_str());
        },
        None => {},
    }
    id
}

/// The support that a fact gives.
pub open spec fn support_of(f: IndexedFactModel) -> FlowSupportRefModel {
    FlowSupportRefModel {
        fact_id: f.fact.fact_id(),
        fact_shard_ref: f.shard_ref,
        provenance: f.fact.provenance(),
        input_payload_ref: f.fact.provenance().input_payload_ref,
        source: f.fact.provenance().source,
    }
}

impl IndexedFact {
    fn support(&self) -> (r: FlowSupportRef)
        ensures
            r.deep_view() == support_of(self.deep_view()),
    {
        let provenance = self.fact.provenance();
        FlowSupportRef {
            fact_id: self.fact.fact_id().clone(),
            fact_shard_ref: self.shard_ref.copied(),
            provenance: provenance.copied(),
            input_payload_ref: provenance.input_payload_ref.copied(),
            source: provenance.source.copied(),
        }
    }
}

/// One support, as a list.
fn only(f: &IndexedFact) -> (r: Vec<FlowSupportRef>)
    ensures
        r.deep_view() == seq![support_of(f.deep_view())],
{
    let r = vec![f.support()];
    assert(r.deep_view() =~= seq![support_of(f.deep_view())]);
    r
}

/// One text, as a list.
fn one(s: &str) -> (r: Vec<String>)
    ensures
        r.deep_view() == seq![s@],
{
    let r = vec![s.to_owned()];
    assert(r.deep_view() =~= seq![s@]);
    r
}

/// The facts of a shard.
pub open spec fn facts_of_shard(shard: PreparedFactShardModel) -> Result<
    Seq<IndexedFactModel>,
    ErrorModel,
> {
    if reference_to(shard.reference.object_schema, shard.bytes) != shard.reference {
        corrupted("callable fact shard differs from its CAS authority"@)
    } else {
        match shard.shard {
            None => corrupted("callable fact shard is invalid"@),
            Some(s) => if canonical_bytes(
                <crate::thread_callables::CallableFactShard as Record>::json(s),
            ) != shard.bytes {
                corrupted("callable fact shard is not canonical"@)
            } else {
                Ok(
                    Seq::new(
                        s.facts.len(),
                        |i: int| IndexedFactModel { fact: s.facts[i], shard_ref: shard.reference },
                    ),
                )
            },
        }
    }
}

/// The facts of the first `n` shards.
pub open spec fn facts_of_shards(shards: Seq<PreparedFactShardModel>, n: nat) -> Result<
    Seq<IndexedFactModel>,
    ErrorModel,
>
    decreases n,
{
    if n == 0 || n > shards.len() {
        Ok(Seq::empty())
    } else {
        match facts_of_shards(shards, (n - 1) as nat) {
            Err(e) => Err(e),
            Ok(before) => match facts_of_shard(shards[n - 1]) {
                Err(e) => Err(e),
                Ok(facts) => Ok(before + facts),
            },
        }
    }
}

/// The facts of a fact set, in the order of their identities.
pub open spec fn facts_read(set: PreparedCallableFactSetModel) -> Result<
    Seq<IndexedFactModel>,
    ErrorModel,
> {
    match facts_of_shards(set.fact_shards, set.fact_shards.len()) {
        Err(e) => Err(e),
        Ok(facts) => Ok(sorted::<IndexedFact>(facts)),
    }
}

proof fn failed_shard_fails_all(shards: Seq<PreparedFactShardModel>, i: nat, n: nat)
    requires
        i <= n <= shards.len(),
        facts_of_shards(shards, i) is Err,
    ensures
        facts_of_shards(shards, n) == facts_of_shards(shards, i),
    decreases n,
{
    if i < n {
        failed_shard_fails_all(shards, i, (n - 1) as nat);
    }
}

fn read_shard(shard: &PreparedFactShard) -> (r: Result<Vec<IndexedFact>, ClewError>)
    ensures
        outcome(r) == facts_of_shard(shard.deep_view()),
{
    let expected = CasObject::for_bytes(
        shard.reference.object_schema.as_str(),
        shard.bytes.as_slice(),
    );
    if !expected.same_as(&shard.reference) {
        return Err(corrupt("callable fact shard differs from its CAS authority"));
    }
    match &shard.shard {
        None => Err(corrupt("callable fact shard is invalid")),
        Some(s) => {
            if !same_bytes(s.to_json().bytes().as_slice(), shard.bytes.as_slice()) {
                return Err(corrupt("callable fact shard is not canonical"));
            }
            let ghost m = s.deep_view();
            let mut facts: Vec<IndexedFact> = Vec::new();
            let mut i: usize = 0;
            while i < s.facts.len()
                invariant
                    i <= s.facts.len(),
                    m == s.deep_view(),
                    facts@.len() == i,
                    forall|k: int|
                        0 <= k < i ==> (#[trigger] facts@[k]).deep_view() == (IndexedFactModel {
                            fact: m.facts[k],
                            shard_ref: shard.reference.deep_view(),
                        }),
                decreases s.facts.len() - i,
            {
                assert(m.facts[i as int] == s.facts@[i as int].deep_view());
                facts.push(
                    IndexedFact { fact: s.facts[i].copied(), shard_ref: shard.reference.copied() },
                );
                i = i + 1;
            }
            assert(facts.deep_view() =~= Seq::new(
                m.facts.len(),
                |i: int|
                    IndexedFactModel {
                        fact: m.facts[i],
                        shard_ref: shard.reference.deep_view(),
                    },
            ));
            Ok(facts)
        },
    }
}

/// Reads the facts of a fact set, in the order of their identities.
pub fn read_facts(set: &PreparedCallableFactSet) -> (r: Result<Vec<IndexedFact>, ClewError>)
    ensures
        outcome(r) == facts_read(set.deep_view()),
{
    let ghost shards = set.deep_view().fact_shards;
    let mut facts: Vec<IndexedFact> = Vec::new();
    assert(facts.deep_view() =~= Seq::empty());
    let mut i: usize = 0;
    while i < set.fact_shards.len()
        invariant
            i <= set.fact_shards.len(),
            shards == set.deep_view().fact_shards,
            facts_of_shards(shards, i as nat) == Ok::<Seq<IndexedFactModel>, ErrorModel>(
                facts.deep_view(),
            ),
        decreases set.fact_shards.len() - i,
    {
        assert(shards[i as int] == set.fact_shards@[i as int].deep_view());
        let ghost before = facts.deep_view();
        let mut more = match read_shard(&set.fact_shards[i]) {
            Ok(more) => more,
            Err(e) => {
                proof {
                    assert(facts_of_shards(shards, (i + 1) as nat) is Err);
                    failed_shard_fails_all(shards, (i + 1) as nat, shards.len());
                }
                return Err(e);
            },
        };
        let ghost added = more.deep_view();
        facts.append(&mut more);
        assert(facts.deep_view() =~= before + added);
        i = i + 1;
    }
    Ok(sort(&facts))
}

/// The exact declaration of a symbol in a member.
pub open spec fn declares(f: IndexedFactModel, member: Seq<char>, symbol: Seq<char>) -> bool {
    match f.fact {
        CallableFactModel::Declaration(row) => row.exact_eligible && row.provenance.member_alias
            == member && row.symbol_identity == symbol,
        _ => false,
    }
}

/// An exact declaration with a callable id in a member.
pub open spec fn in_family(f: IndexedFactModel, member: Seq<char>, callable_id: Seq<char>) -> bool {
    match f.fact {
        CallableFactModel::Declaration(row) => row.exact_eligible && row.provenance.member_alias
            == member && row.compiler_callable_id == Some(callable_id),
        _ => false,
    }
}

/// A use by a callable of a member.
pub open spec fn is_use_by(f: IndexedFactModel, member: Seq<char>, callable_id: Seq<char>) -> bool {
    match f.fact {
        CallableFactModel::Use(row) => row.provenance.member_alias == member && row.source_owner
            == callable_id,
        _ => false,
    }
}

/// A use that rests on the declared topology.
pub open spec fn is_declared_use(f: IndexedFactModel) -> bool {
    match f.fact {
        CallableFactModel::Use(row) => row.relationship_authority
            == RelationshipAuthority::DeclaredTopology,
        _ => false,
    }
}

/// The exact declarations of a symbol in a member.
pub open spec fn declarations_of(
    facts: Seq<IndexedFactModel>,
    member: Seq<char>,
    symbol: Seq<char>,
) -> Seq<IndexedFactModel> {
    facts.filter(|f: IndexedFactModel| declares(f, member, symbol))
}

/// The exact declarations with a callable id in a member.
pub open spec fn family_of(
    facts: Seq<IndexedFactModel>,
    member: Seq<char>,
    callable_id: Seq<char>,
) -> Seq<IndexedFactModel> {
    facts.filter(|f: IndexedFactModel| in_family(f, member, callable_id))
}

/// The uses by a callable of a member: those that rest on the declared topology
/// first, in each part by their identities.
pub open spec fn outgoing_of(
    facts: Seq<IndexedFactModel>,
    member: Seq<char>,
    callable_id: Seq<char>,
) -> Seq<IndexedFactModel> {
    facts.filter(
        |f: IndexedFactModel| is_use_by(f, member, callable_id) && is_declared_use(f),
    ) + facts.filter(|f: IndexedFactModel| is_use_by(f, member, callable_id) && !is_declared_use(f))
}

/// What a slice is built from.
pub struct FlowContext {
    pub request: FlowRequestModel,
    pub pair: CallablePairBindingModel,
    pub pairs: Seq<CallablePairBindingModel>,
    pub members: Seq<CallableMemberBindingModel>,
    pub facts: Seq<IndexedFactModel>,
    pub cfg: Option<Map<(Seq<char>, Seq<char>), PreparedLocalCfgModel>>,
}

/// How far a slice is built.
pub struct FlowState {
    pub nodes: Vec<FlowNode>,
    pub edges: Vec<FlowEdge>,
    pub boundaries: Vec<FlowBoundary>,
    pub obligations: Vec<String>,
    pub truncated: bool,
    pub visited: Vec<String>,
    pub queue: Vec<FlowStep>,
}

/// The model of a [`FlowState`].
pub struct FlowStateModel {
    pub nodes: Seq<FlowNodeModel>,
    pub edges: Seq<FlowEdgeModel>,
    pub boundaries: Seq<FlowBoundaryModel>,
    pub obligations: Seq<Seq<char>>,
    pub truncated: bool,
    pub visited: Seq<Seq<char>>,
    pub queue: Seq<FlowStepModel>,
}

impl DeepView for FlowState {
    type V = FlowStateModel;

    open spec fn deep_view(&self) -> FlowStateModel {
        FlowStateModel {
            nodes: self.nodes.deep_view(),
            edges: self.edges.deep_view(),
            boundaries: self.boundaries.deep_view(),
            obligations: self.obligations.deep_view(),
            truncated: self.truncated,
            visited: self.visited.deep_view(),
            queue: self.queue.deep_view(),
        }
    }
}

/// What a slice is built from.
struct FlowInput<'a> {
    request: &'a FlowRequest,
    pair: &'a CallablePairBinding,
    pairs: &'a Vec<CallablePairBinding>,
    members: Vec<CallableMemberBinding>,
    facts: Vec<IndexedFact>,
    cfg: Option<&'a LocalCfgCatalog>,
}

impl<'a> FlowInput<'a> {
    spec fn context(&self) -> FlowContext {
        FlowContext {
            request: self.request.deep_view(),
            pair: self.pair.deep_view(),
            pairs: self.pairs.deep_view(),
            members: self.members.deep_view(),
            facts: self.facts.deep_view(),
            cfg: match self.cfg {
                Some(catalog) => Some(catalog@),
                None => None,
            },
        }
    }
}

/// Some texts with others entered, each once, in order.
pub open spec fn texts_entered(set: Seq<Seq<char>>, more: Seq<Seq<char>>) -> Seq<Seq<char>>
    decreases more.len(),
{
    if more.len() == 0 {
        set
    } else {
        entered::<String>(texts_entered(set, more.drop_last()), more.last())
    }
}

fn enter_texts(set: &mut Vec<String>, more: &Vec<String>)
    ensures
        final(set).deep_view() == texts_entered(old(set).deep_view(), more.deep_view()),
{
    let ghost before = set.deep_view();
    let ghost m = more.deep_view();
    let mut i: usize = 0;
    assert(m.take(0).len() == 0);
    while i < more.len()
        invariant
            i <= more.len(),
            m == more.deep_view(),
            set.deep_view() == texts_entered(before, m.take(i as int)),
        decreases more.len() - i,
    {
        assert(m.take(i + 1).drop_last() =~= m.take(i as int));
        assert(m.take(i + 1).last() == more@[i as int].deep_view());
        enter(set, more[i].clone());
        i = i + 1;
    }
    assert(m.take(m.len() as int) =~= m);
}

/// The identity of a boundary.
pub open spec fn boundary_id(
    member: Seq<char>,
    code: Seq<char>,
    subject: Seq<char>,
    support: Seq<FlowSupportRefModel>,
) -> Seq<char> {
    stable_id(
        "flow-boundary"@,
        JsonModel::object().with("member"@, JsonModel::Str(member)).with(
            "code"@,
            JsonModel::Str(code),
        ).with("subject"@, JsonModel::Str(subject)).with(
            "support"@,
            <Vec<FlowSupportRef> as Record>::json(support),
        ),
    )
}

/// The state with a boundary: its checks become obligations, and the boundary is
/// entered unless it is there. A boundary above the budget fails.
pub open spec fn with_boundary(
    cx: FlowContext,
    st: FlowStateModel,
    code: Seq<char>,
    subject: Seq<char>,
    checks: Seq<Seq<char>>,
    support: Seq<FlowSupportRefModel>,
) -> Result<FlowStateModel, ErrorModel> {
    let required = first_table::<String>(checks);
    let id = boundary_id(cx.request.member_alias, code, subject, support);
    if !has_key::<FlowBoundary>(st.boundaries, id) && st.boundaries.len()
        >= cx.request.budgets.max_boundaries {
        exceeded("flow boundary budget exceeded"@)
    } else {
        Ok(
            FlowStateModel {
                obligations: texts_entered(st.obligations, required),
                boundaries: entered::<FlowBoundary>(
                    st.boundaries,
                    FlowBoundaryModel {
                        boundary_id: id,
                        code,
                        subject,
                        required_checks: required,
                        support_refs: support,
                    },
                ),
                ..st
            },
        )
    }
}

/// The state that says that something was cut off.
pub open spec fn cut(st: FlowStateModel) -> FlowStateModel {
    FlowStateModel { truncated: true, ..st }
}

/// Whether a fallible change of a state went as it should.
pub open spec fn changed(
    r: Result<(), ClewError>,
    after: FlowStateModel,
    expected: Result<FlowStateModel, ErrorModel>,
) -> bool {
    match expected {
        Ok(s) => r is Ok && after == s,
        Err(e) => r is Err && r->Err_0.deep_view() == e,
    }
}

impl FlowState {
    fn add_boundary(
        &mut self,
        input: &FlowInput,
        code: &str,
        subject: &str,
        checks: Vec<String>,
        support: Vec<FlowSupportRef>,
    ) -> (r: Result<(), ClewError>)
        ensures
            changed(
                r,
                final(self).deep_view(),
                with_boundary(
                    input.context(),
                    old(self).deep_view(),
                    code@,
                    subject@,
                    checks.deep_view(),
                    support.deep_view(),
                ),
            ),
            final(self).nodes == old(self).nodes,
            final(self).edges == old(self).edges,
            final(self).visited == old(self).visited,
    {
        let required = table_of(&checks);
        let material = Json::object().with(
            "member",
            Json::Str(input.request.member_alias.clone()),
        ).with("code", Json::Str(code.to_owned())).with(
            "subject",
            Json::Str(subject.to_owned()),
        ).with("support", support.to_json());
        let boundary_id = make_id("flow-boundary", &material);
        if !contains_key(&self.boundaries, boundary_id.as_str()) && self.boundaries.len()
            >= input.request.budgets.max_boundaries {
            return Err(budget("flow boundary budget exceeded"));
        }
        enter_texts(&mut self.obligations, &required);
        enter(
            &mut self.boundaries,
            FlowBoundary {
                boundary_id,
                code: code.to_owned(),
                subject: subject.to_owned(),
                required_checks: required,
                support_refs: support,
            },
        );
        Ok(())
    }
}

/// The node of a declaration at a depth.
pub open spec fn node_of(cx: FlowContext, f: IndexedFactModel, depth: usize) -> Result<
    FlowNodeModel,
    ErrorModel,
> {
    match f.fact {
        CallableFactModel::Declaration(row) => match record_at::<CallableMemberBinding>(
            cx.members,
            row.provenance.member_alias,
        ) {
            None => corrupted("callable declaration has no member authority"@),
            Some(member) => if member.repository_namespace != row.provenance.repository_namespace {
                corrupted(
                    "callable declaration repository namespace differs from member authority"@,
                )
            } else {
                Ok(
                    FlowNodeModel {
                        node_id: stable_id(
                            "flow-node"@,
                            JsonModel::object().with(
                                "member"@,
                                JsonModel::Str(row.provenance.member_alias),
                            ).with(
                                "repository"@,
                                JsonModel::Str(row.provenance.repository_namespace),
                            ).with("symbol"@, JsonModel::Str(row.symbol_identity)),
                        ),
                        node_kind: FlowNodeKind::Callable,
                        member_alias: row.provenance.member_alias,
                        service_alias: member.service_alias,
                        repository_namespace: row.provenance.repository_namespace,
                        symbol_identity: row.symbol_identity,
                        depth,
                        order_authority: FlowOrderAuthority::UnorderedStaticRelation,
                        support_refs: seq![support_of(f)],
                    },
                )
            },
        },
        _ => corrupted("callable node support is not a declaration"@),
    }
}

/// The node of a callable family that is handed over to another member.
pub open spec fn handoff_node(
    member: CallableMemberBindingModel,
    target_callable_id: Seq<char>,
    depth: usize,
) -> FlowNodeModel {
    FlowNodeModel {
        node_id: stable_id(
            "flow-node"@,
            JsonModel::object().with("kind"@, JsonModel::Str("DECLARED_TOPOLOGY_BOUNDARY"@)).with(
                "member"@,
                JsonModel::Str(member.member_alias),
            ).with("service"@, JsonModel::Str(member.service_alias)).with(
                "repository"@,
                JsonModel::Str(member.repository_namespace),
            ).with("callableFamily"@, JsonModel::Str(target_callable_id)),
        ),
        node_kind: FlowNodeKind::Boundary,
        member_alias: member.member_alias,
        service_alias: member.service_alias,
        repository_namespace: member.repository_namespace,
        symbol_identity: target_callable_id,
        depth,
        order_authority: FlowOrderAuthority::Unknown,
        support_refs: Seq::empty(),
    }
}

fn callable_node(input: &FlowInput, f: &IndexedFact, depth: usize) -> (r: Result<
    FlowNode,
    ClewError,
>)
    ensures
        outcome(r) == node_of(input.context(), f.deep_view(), depth),
{
    match &f.fact {
        CallableFact::Declaration(row) => match find_record(
            &input.members,
            row.provenance.member_alias.as_str(),
        ) {
            None => Err(corrupt("callable declaration has no member authority")),
            Some(member) => {
                if !same_text(
                    member.repository_namespace.as_str(),
                    row.provenance.repository_namespace.as_str(),
                ) {
                    return Err(
                        corrupt(
                            "callable declaration repository namespace differs from member authority",
                        ),
                    );
                }
                let material = Json::object().with(
                    "member",
                    Json::Str(row.provenance.member_alias.clone()),
                ).with(
                    "repository",
                    Json::Str(row.provenance.repository_namespace.clone()),
                ).with("symbol", Json::Str(row.symbol_identity.clone()));
                Ok(
                    FlowNode {
                        node_id: make_id("flow-node", &material),
                        node_kind: FlowNodeKind::Callable,
                        member_alias: row.provenance.member_alias.clone(),
                        service_alias: member.service_alias.clone(),
                        repository_namespace: row.provenance.repository_namespace.clone(),
                        symbol_identity: row.symbol_identity.clone(),
                        depth,
                        order_authority: FlowOrderAuthority::UnorderedStaticRelation,
                        support_refs: only(f),
                    },
                )
            },
        },
        _ => Err(corrupt("callable node support is not a declaration")),
    }
}

fn declared_handoff_node(
    member: &CallableMemberBinding,
    target_callable_id: &str,
    depth: usize,
) -> (r: FlowNode)
    ensures
        r.deep_view() == handoff_node(member.deep_view(), target_callable_id@, depth),
{
    let material = Json::object().with(
        "kind",
        Json::Str("DECLARED_TOPOLOGY_BOUNDARY".to_owned()),
    ).with("member", Json::Str(member.member_alias.clone())).with(
        "service",
        Json::Str(member.service_alias.clone()),
    ).with("repository", Json::Str(member.repository_namespace.clone())).with(
        "callableFamily",
        Json::Str(target_callable_id.to_owned()),
    );
    let support_refs: Vec<FlowSupportRef> = Vec::new();
    assert(support_refs.deep_view() =~= Seq::empty());
    FlowNode {
        node_id: make_id("flow-node", &material),
        node_kind: FlowNodeKind::Boundary,
        member_alias: member.member_alias.clone(),
        service_alias: member.service_alias.clone(),
        repository_namespace: member.repository_namespace.clone(),
        symbol_identity: target_callable_id.to_owned(),
        depth,
        order_authority: FlowOrderAuthority::Unknown,
        support_refs,
    }
}

/// Whether a node is that of a callable of a member.
pub open spec fn is_node_of(n: FlowNodeModel, member: Seq<char>, symbol: Seq<char>) -> bool {
    n.member_alias == member && n.symbol_identity == symbol && n.node_kind
        == FlowNodeKind::Callable
}

/// The identity of the first node of a callable of a member.
pub open spec fn node_for(nodes: Seq<FlowNodeModel>, member: Seq<char>, symbol: Seq<char>) -> Option<
    Seq<char>,
>
    decreases nodes.len(),
{
    if nodes.len() == 0 {
        None
    } else if is_node_of(nodes[0], member, symbol) {
        Some(nodes[0].node_id)
    } else {
        node_for(nodes.drop_first(), member, symbol)
    }
}

fn node_for_symbol(nodes: &Vec<FlowNode>, member: &str, symbol: &str) -> (r: Option<String>)
    ensures
        r.deep_view() == node_for(nodes.deep_view(), member@, symbol@),
{
    let ghost m = nodes.deep_view();
    let mut i: usize = 0;
    assert(m.skip(0) =~= m);
    while i < nodes.len()
        invariant
            i <= nodes.len(),
            m == nodes.deep_view(),
            node_for(m, member@, symbol@) == node_for(m.skip(i as int), member@, symbol@),
        decreases nodes.len() - i,
    {
        let n = &nodes[i];
        assert(m.skip(i as int)[0] == n.deep_view());
        if same_text(n.member_alias.as_str(), member) && same_text(
            n.symbol_identity.as_str(),
            symbol,
        ) && n.node_kind == FlowNodeKind::Callable {
            return Some(n.node_id.clone());
        }
        assert(m.skip(i as int).drop_first() =~= m.skip(i + 1));
        i = i + 1;
    }
    None
}

/// The unsigned integers that the first `n` values are, where they all are.
pub open spec fn uints(values: Seq<JsonModel>, n: nat) -> Option<Seq<u64>>
    decreases n,
{
    if n == 0 || n > values.len() {
        Some(Seq::empty())
    } else {
        match uints(values, (n - 1) as nat) {
            None => None,
            Some(before) => match values[n - 1].as_u64() {
                None => None,
                Some(x) => Some(before.push(x)),
            },
        }
    }
}

/// Whether numbers grow strictly and each is the id of a node of a graph.
pub open spec fn are_graph_nodes(ids: Seq<u64>, nodes: Seq<LocalCfgNodeModel>) -> bool {
    &&& ids.len() > 0
    &&& forall|i: int| 0 < i < ids.len() ==> ids[i - 1] < #[trigger] ids[i]
    &&& forall|i: int|
        0 <= i < ids.len() ==> crate::thread_flow_cfg::has_node(nodes, #[trigger] ids[i])
}

/// The nodes of a graph that a use names with the compiler's order, where it does.
pub open spec fn cfg_nodes_of(row: UseFactModel, graph: LocalCfgPayloadModel) -> Option<Seq<u64>> {
    if row.relation_evidence.str_at("orderProvenance"@) != Some("K2_FIR_CFG"@) {
        None
    } else {
        match row.relation_evidence.array_at("cfgNodeIds"@) {
            None => None,
            Some(values) => match uints(values, values.len()) {
                None => None,
                Some(ids) => if are_graph_nodes(ids, graph.nodes) {
                    Some(ids)
                } else {
                    None
                },
            },
        }
    }
}

proof fn no_uints(values: Seq<JsonModel>, i: nat, n: nat)
    requires
        i <= n <= values.len(),
        uints(values, i) is None,
    ensures
        uints(values, n) is None,
    decreases n,
{
    if i < n {
        no_uints(values, i, (n - 1) as nat);
    }
}

fn read_uints(values: &Vec<Json>) -> (r: Option<Vec<u64>>)
    ensures
        match r {
            Some(ids) => uints(values.deep_view(), values.deep_view().len()) == Some(ids@),
            None => uints(values.deep_view(), values.deep_view().len()) is None,
        },
{
    let ghost m = values.deep_view();
    let mut ids: Vec<u64> = Vec::new();
    let mut i: usize = 0;
    while i < values.len()
        invariant
            i <= values.len(),
            m == values.deep_view(),
            uints(m, i as nat) == Some(ids@),
        decreases values.len() - i,
    {
        assert(m[i as int] == values@[i as int].deep_view());
        match values[i].as_u64() {
            Some(x) => {
                ids.push(x);
            },
            None => {
                proof {
                    assert(uints(m, (i + 1) as nat) is None);
                    no_uints(m, (i + 1) as nat, m.len());
                }
                return None;
            },
        }
        i = i + 1;
    }
    Some(ids)
}

fn graph_has_node(nodes: &Vec<LocalCfgNode>, id: u64) -> (r: bool)
    ensures
        r == crate::thread_flow_cfg::has_node(nodes.deep_view(), id),
{
    let ghost m = nodes.deep_view();
    let mut i: usize = 0;
    while i < nodes.len()
        invariant
            i <= nodes.len(),
            m == nodes.deep_view(),
            forall|k: int| 0 <= k < i ==> (#[trigger] m[k]).node_id != id,
        decreases nodes.len() - i,
    {
        assert(m[i as int] == nodes@[i as int].deep_view());
        if nodes[i].node_id == id {
            return true;
        }
        i = i + 1;
    }
    false
}

fn graph_nodes(ids: &Vec<u64>, nodes: &Vec<LocalCfgNode>) -> (r: bool)
    ensures
        r == are_graph_nodes(ids@, nodes.deep_view()),
{
    if ids.len() == 0 {
        return false;
    }
    let ghost m = nodes.deep_view();
    let mut i: usize = 0;
    while i < ids.len()
        invariant
            i <= ids.len(),
            m == nodes.deep_view(),
            forall|k: int| 0 < k < i ==> ids@[k - 1] < #[trigger] ids@[k],
            forall|k: int| 0 <= k < i ==> crate::thread_flow_cfg::has_node(m, #[trigger] ids@[k]),
        decreases ids.len() - i,
    {
        if i > 0 && ids[i - 1] >= ids[i] {
            assert(!(ids@[i - 1] < ids@[i as int]));
            return false;
        }
        if !graph_has_node(nodes, ids[i]) {
            return false;
        }
        i = i + 1;
    }
    true
}

fn relation_cfg_nodes(row: &UseFact, graph: &LocalCfgPayload) -> (r: Option<Vec<u64>>)
    ensures
        match r {
            Some(ids) => cfg_nodes_of(row.deep_view(), graph.deep_view()) == Some(ids@),
            None => cfg_nodes_of(row.deep_view(), graph.deep_view()) is None,
        },
{
    match row.relation_evidence.str_at("orderProvenance") {
        Some(provenance) => if !same_text(provenance.as_str(), "K2_FIR_CFG") {
            return None;
        },
        None => {
            return None;
        },
    }
    match row.relation_evidence.array_at("cfgNodeIds") {
        None => None,
        Some(values) => match read_uints(values) {
            None => None,
            Some(ids) => if graph_nodes(&ids, &graph.nodes) {
                Some(ids)
            } else {
                None
            },
        },
    }
}

/// The places where facts declare a symbol in a member.
fn find_declarations(facts: &Vec<IndexedFact>, member: &str, symbol: &str) -> (r: Vec<usize>)
    ensures
        r@.len() == declarations_of(facts.deep_view(), member@, symbol@).len(),
        forall|k: int|
            0 <= k < r@.len() ==> (#[trigger] r@[k]) < facts@.len()
                && facts.deep_view()[r@[k] as int] == declarations_of(
                facts.deep_view(),
                member@,
                symbol@,
            )[k],
{
    let ghost m = facts.deep_view();
    let ghost pred = |f: IndexedFactModel| declares(f, member@, symbol@);
    let mut r: Vec<usize> = Vec::new();
    let mut i: usize = 0;
    proof {
        reveal(Seq::filter);
        assert(m.take(0).filter(pred).len() == 0);
    }
    while i < facts.len()
        invariant
            i <= facts.len(),
            m == facts.deep_view(),
            pred == (|f: IndexedFactModel| declares(f, member@, symbol@)),
            r@.len() == m.take(i as int).filter(pred).len(),
            forall|k: int|
                0 <= k < r@.len() ==> (#[trigger] r@[k]) < facts@.len() && m[r@[k] as int]
                    == m.take(i as int).filter(pred)[k],
        decreases facts.len() - i,
    {
        proof {
            reveal(Seq::filter);
            assert(m.take(i + 1).drop_last() =~= m.take(i as int));
            assert(m.take(i + 1).last() == facts@[i as int].deep_view());
        }
        match &facts[i].fact {
            CallableFact::Declaration(row) => if row.exact_eligible && same_text(
                row.provenance.member_alias.as_str(),
                member,
            ) && same_text(row.symbol_identity.as_str(), symbol) {
                r.push(i);
            },
            _ => {},
        }
        i = i + 1;
    }
    assert(m.take(m.len() as int) =~= m);
    r
}

/// The number of facts that declare a callable id in a member.
fn count_family(facts: &Vec<IndexedFact>, member: &str, callable_id: &str) -> (r: usize)
    ensures
        r == family_of(facts.deep_view(), member@, callable_id@).len(),
{
    let ghost m = facts.deep_view();
    let ghost pred = |f: IndexedFactModel| in_family(f, member@, callable_id@);
    let mut r: usize = 0;
    let mut i: usize = 0;
    proof {
        reveal(Seq::filter);
        assert(m.take(0).filter(pred).len() == 0);
    }
    while i < facts.len()
        invariant
            r <= i <= facts.len(),
            m == facts.deep_view(),
            pred == (|f: IndexedFactModel| in_family(f, member@, callable_id@)),
            r == m.take(i as int).filter(pred).len(),
        decreases facts.len() - i,
    {
        proof {
            reveal(Seq::filter);
            assert(m.take(i + 1).drop_last() =~= m.take(i as int));
            assert(m.take(i + 1).last() == facts@[i as int].deep_view());
        }
        match &facts[i].fact {
            CallableFact::Declaration(row) => if row.exact_eligible && same_text(
                row.provenance.member_alias.as_str(),
                member,
            ) {
                if let Some(id) = &row.compiler_callable_id {
                    if same_text(id.as_str(), callable_id) {
                        r = r + 1;
                    }
                }
            },
            _ => {},
        }
        i = i + 1;
    }
    assert(m.take(m.len() as int) =~= m);
    r
}

/// The places of the uses by a callable that rest, or do not, on the declared
/// topology.
fn find_uses(facts: &Vec<IndexedFact>, member: &str, callable_id: &str, declared: bool) -> (r: Vec<
    usize,
>)
    ensures
        ({
            let uses = facts.deep_view().filter(
                |f: IndexedFactModel|
                    is_use_by(f, member@, callable_id@) && is_declared_use(f) == declared,
            );
            &&& r@.len() == uses.len()
            &&& forall|k: int|
                0 <= k < r@.len() ==> (#[trigger] r@[k]) < facts@.len()
                    && facts.deep_view()[r@[k] as int] == uses[k]
        }),
{
    let ghost m = facts.deep_view();
    let ghost pred = |f: IndexedFactModel|
        is_use_by(f, member@, callable_id@) && is_declared_use(f) == declared;
    let mut r: Vec<usize> = Vec::new();
    let mut i: usize = 0;
    proof {
        reveal(Seq::filter);
        assert(m.take(0).filter(pred).len() == 0);
    }
    while i < facts.len()
        invariant
            i <= facts.len(),
            m == facts.deep_view(),
            pred == (|f: IndexedFactModel|
                is_use_by(f, member@, callable_id@) && is_declared_use(f) == declared),
            r@.len() == m.take(i as int).filter(pred).len(),
            forall|k: int|
                0 <= k < r@.len() ==> (#[trigger] r@[k]) < facts@.len() && m[r@[k] as int]
                    == m.take(i as int).filter(pred)[k],
        decreases facts.len() - i,
    {
        proof {
            reveal(Seq::filter);
            assert(m.take(i + 1).drop_last() =~= m.take(i as int));
            assert(m.take(i + 1).last() == facts@[i as int].deep_view());
        }
        match &facts[i].fact {
            CallableFact::Use(row) => {
                let is_declared = row.relationship_authority
                    == RelationshipAuthority::DeclaredTopology;
                if same_text(row.provenance.member_alias.as_str(), member) && same_text(
                    row.source_owner.as_str(),
                    callable_id,
                ) && is_declared == declared {
                    r.push(i);
                }
            },
            _ => {},
        }
        i = i + 1;
    }
    assert(m.take(m.len() as int) =~= m);
    r
}

/// The places of the uses by a callable, in the order in which they are followed.
fn find_outgoing(facts: &Vec<IndexedFact>, member: &str, callable_id: &str) -> (r: Vec<usize>)
    ensures
        r@.len() == outgoing_of(facts.deep_view(), member@, callable_id@).len(),
        forall|k: int|
            0 <= k < r@.len() ==> (#[trigger] r@[k]) < facts@.len()
                && facts.deep_view()[r@[k] as int] == outgoing_of(
                facts.deep_view(),
                member@,
                callable_id@,
            )[k],
{
    let ghost m = facts.deep_view();
    let mut r = find_uses(facts, member, callable_id, true);
    let mut rest = find_uses(facts, member, callable_id, false);
    let ghost first = r@;
    let ghost second = rest@;
    r.append(&mut rest);
    proof {
        assert((|f: IndexedFactModel|
            is_use_by(f, member@, callable_id@) && is_declared_use(f) == true) =~= (|
            f: IndexedFactModel,
        | is_use_by(f, member@, callable_id@) && is_declared_use(f)));
        assert((|f: IndexedFactModel|
            is_use_by(f, member@, callable_id@) && is_declared_use(f) == false) =~= (|
            f: IndexedFactModel,
        | is_use_by(f, member@, callable_id@) && !is_declared_use(f)));
        let all = outgoing_of(m, member@, callable_id@);
        assert forall|k: int| 0 <= k < r@.len() implies (#[trigger] r@[k]) < facts@.len()
            && m[r@[k] as int] == all[k] by {
            if k < first.len() {
                assert(r@[k] == first[k]);
            } else {
                assert(r@[k] == second[k - first.len()]);
            }
        }
    }
    r
}

/// The callable that is being followed.
pub struct FlowSource {
    pub symbol: Seq<char>,
    pub depth: usize,
    pub node_id: Seq<char>,
}

/// The alias of the first member with a repository namespace.
pub open spec fn member_with_namespace(
    members: Seq<CallableMemberBindingModel>,
    namespace: Seq<char>,
) -> Option<Seq<char>>
    decreases members.len(),
{
    if members.len() == 0 {
        None
    } else if members[0].repository_namespace == namespace {
        Some(members[0].member_alias)
    } else {
        member_with_namespace(members.drop_first(), namespace)
    }
}

fn find_namespace(members: &Vec<CallableMemberBinding>, namespace: &str) -> (r: Option<String>)
    ensures
        r.deep_view() == member_with_namespace(members.deep_view(), namespace@),
{
    let ghost m = members.deep_view();
    let mut i: usize = 0;
    assert(m.skip(0) =~= m);
    while i < members.len()
        invariant
            i <= members.len(),
            m == members.deep_view(),
            member_with_namespace(m, namespace@) == member_with_namespace(
                m.skip(i as int),
                namespace@,
            ),
        decreases members.len() - i,
    {
        assert(m.skip(i as int)[0] == members@[i as int].deep_view());
        if same_text(members[i].repository_namespace.as_str(), namespace) {
            return Some(members[i].member_alias.clone());
        }
        assert(m.skip(i as int).drop_first() =~= m.skip(i + 1));
        i = i + 1;
    }
    None
}

/// The member that a use points to by its repository namespace.
pub open spec fn target_member(cx: FlowContext, row: UseFactModel) -> Option<Seq<char>> {
    match row.target_repository_namespace {
        Some(namespace) => member_with_namespace(cx.members, namespace),
        None => None,
    }
}

/// The full symbol that a use resolves to exactly.
pub open spec fn exact_target(row: UseFactModel) -> Option<Seq<char>> {
    if row.target_resolution == TargetResolution::ExactSymbol {
        row.target_symbol_identity
    } else {
        None
    }
}

/// What a boundary about a use names: the exact target, or its callable id.
pub open spec fn target_subject(row: UseFactModel) -> Seq<char> {
    match exact_target(row) {
        Some(symbol) => symbol,
        None => row.target_callable_id,
    }
}

/// Whether a use stays inside its member and its snapshot.
pub open spec fn stays_inside(cx: FlowContext, row: UseFactModel) -> bool {
    target_member(cx, row) == Some(cx.request.member_alias) && row.relationship_authority
        == RelationshipAuthority::VerifiedSameSnapshotCompilationDependency
}

/// Whether a member belongs to the selected pair.
pub open spec fn in_pair(cx: FlowContext, member: Seq<char>) -> bool {
    member == cx.pair.provider_member || member == cx.pair.consumer_member
}

/// Whether a use points to a member outside the selected pair.
pub open spec fn points_outside_pair(cx: FlowContext, row: UseFactModel) -> bool {
    match target_member(cx, row) {
        Some(member) => !in_pair(cx, member),
        None => false,
    }
}

/// The pairs that declare a member to be a consumer.
pub open spec fn declared_pairs(
    pairs: Seq<CallablePairBindingModel>,
    member: Seq<char>,
) -> Seq<CallablePairBindingModel> {
    pairs.filter(
        |p: CallablePairBindingModel|
            p.consumer_member == member && p.relationship_authority
                == RelationshipAuthority::DeclaredTopology,
    )
}

/// Whether the selected pair is the only declared one with the member as consumer.
pub open spec fn is_sole_declared_pair(cx: FlowContext) -> bool {
    let declared = declared_pairs(cx.pairs, cx.request.member_alias);
    cx.pair.relationship_authority == RelationshipAuthority::DeclaredTopology && declared.len() == 1
        && declared[0].pair_id == cx.pair.pair_id
}

fn sole_declared_pair(input: &FlowInput) -> (r: bool)
    ensures
        r == is_sole_declared_pair(input.context()),
{
    let ghost m = input.pairs.deep_view();
    let ghost member = input.request.member_alias@;
    let ghost pred = |p: CallablePairBindingModel|
        p.consumer_member == member && p.relationship_authority
            == RelationshipAuthority::DeclaredTopology;
    let mut count: usize = 0;
    let mut first: usize = 0;
    let mut i: usize = 0;
    proof {
        reveal(Seq::filter);
        assert(m.take(0).filter(pred).len() == 0);
    }
    while i < input.pairs.len()
        invariant
            count <= i <= input.pairs.len(),
            m == input.pairs.deep_view(),
            member == input.request.member_alias@,
            pred == (|p: CallablePairBindingModel|
                p.consumer_member == member && p.relationship_authority
                    == RelationshipAuthority::DeclaredTopology),
            count == m.take(i as int).filter(pred).len(),
            count > 0 ==> first < m.len() && m[first as int] == m.take(i as int).filter(pred)[0],
        decreases input.pairs.len() - i,
    {
        proof {
            reveal(Seq::filter);
            assert(m.take(i + 1).drop_last() =~= m.take(i as int));
            assert(m.take(i + 1).last() == input.pairs@[i as int].deep_view());
        }
        if same_text(
            input.pairs[i].consumer_member.as_str(),
            input.request.member_alias.as_str(),
        ) && input.pairs[i].relationship_authority == RelationshipAuthority::DeclaredTopology {
            if count == 0 {
                first = i;
            }
            count = count + 1;
        }
        i = i + 1;
    }
    assert(m.take(m.len() as int) =~= m);
    if input.pair.relationship_authority != RelationshipAuthority::DeclaredTopology || count != 1 {
        return false;
    }
    assert(m[first as int] == input.pairs@[first as int].deep_view());
    same_text(input.pairs[first].pair_id.as_str(), input.pair.pair_id.as_str())
}

/// The edge between two nodes.
pub open spec fn edge_of(
    source: FlowSource,
    source_member: CallableMemberBindingModel,
    target_node_id: Seq<char>,
    target: CallableMemberBindingModel,
    f: IndexedFactModel,
    row: UseFactModel,
    edge_id: Seq<char>,
    order: (FlowOrderAuthority, Option<Seq<char>>, Seq<u64>),
) -> FlowEdgeModel {
    FlowEdgeModel {
        edge_id,
        source_node_id: source.node_id,
        target_node_id,
        source_member_alias: source_member.member_alias,
        source_service_alias: source_member.service_alias,
        source_repository_namespace: source_member.repository_namespace,
        target_member_alias: target.member_alias,
        target_service_alias: target.service_alias,
        target_repository_namespace: target.repository_namespace,
        relation_kind: row.relation_kind,
        relationship_authority: row.relationship_authority,
        order_authority: order.0,
        cfg_graph_id: order.1,
        cfg_node_ids: order.2,
        support_refs: seq![support_of(f)],
    }
}

/// The identity of an edge that is handed over to another member.
pub open spec fn handoff_edge_id(
    source: Seq<char>,
    target: Seq<char>,
    fact_id: Seq<char>,
) -> Seq<char> {
    stable_id(
        "flow-edge"@,
        JsonModel::object().with("source"@, JsonModel::Str(source)).with(
            "target"@,
            JsonModel::Str(target),
        ).with("fact"@, JsonModel::Str(fact_id)).with(
            "authority"@,
            JsonModel::Str("DECLARED_TOPOLOGY"@),
        ),
    )
}

/// The identity of an edge inside a member.
pub open spec fn edge_id_of(
    source: Seq<char>,
    target: Seq<char>,
    fact_id: Seq<char>,
) -> Seq<char> {
    stable_id(
        "flow-edge"@,
        JsonModel::object().with("source"@, JsonModel::Str(source)).with(
            "target"@,
            JsonModel::Str(target),
        ).with("fact"@, JsonModel::Str(fact_id)),
    )
}

/// The state after a use that is handed over to the provider of the pair.
pub open spec fn handoff_step(
    cx: FlowContext,
    st: FlowStateModel,
    source: FlowSource,
    f: IndexedFactModel,
    row: UseFactModel,
) -> Result<FlowStateModel, ErrorModel> {
    let support = seq![support_of(f)];
    if !is_sole_declared_pair(cx) {
        with_boundary(
            cx,
            st,
            "AMBIGUOUS_DECLARED_TOPOLOGY_HANDOFF"@,
            row.target_callable_id,
            seq!["DISAMBIGUATE_DECLARED_COMPONENT_PAIR"@],
            support,
        )
    } else if cx.request.member_alias != cx.pair.consumer_member {
        with_boundary(
            cx,
            st,
            "DECLARED_TOPOLOGY_DIRECTION_MISMATCH"@,
            row.target_callable_id,
            seq!["VERIFY_DECLARED_CONSUMER_PROVIDER_DIRECTION"@],
            support,
        )
    } else {
        match record_at::<CallableMemberBinding>(cx.members, cx.pair.provider_member) {
            None => corrupted("selected provider has no callable authority"@),
            Some(target) => match record_at::<CallableMemberBinding>(
                cx.members,
                cx.request.member_alias,
            ) {
                None => corrupted("flow source has no callable authority"@),
                Some(source_member) => {
                    let node = handoff_node(
                        target,
                        row.target_callable_id,
                        (source.depth + 1) as usize,
                    );
                    if !has_key::<FlowNode>(st.nodes, node.node_id) && st.nodes.len()
                        >= cx.request.budgets.max_nodes {
                        with_boundary(
                            cx,
                            cut(st),
                            "FLOW_NODE_BUDGET_TRUNCATED"@,
                            row.target_callable_id,
                            seq!["SELECT_NARROWER_ROOT"@],
                            support,
                        )
                    } else {
                        let st2 = FlowStateModel { nodes: entered::<FlowNode>(st.nodes, node), ..st };
                        if st2.edges.len() >= cx.request.budgets.max_edges {
                            with_boundary(
                                cx,
                                cut(st2),
                                "FLOW_EDGE_BUDGET_TRUNCATED"@,
                                source.symbol,
                                seq!["SELECT_NARROWER_ROOT"@],
                                support,
                            )
                        } else {
                            let edge = edge_of(
                                source,
                                source_member,
                                node.node_id,
                                target,
                                f,
                                row,
                                handoff_edge_id(source.node_id, node.node_id, row.fact_id),
                                (FlowOrderAuthority::Unknown, None, Seq::empty()),
                            );
                            with_boundary(
                                cx,
                                FlowStateModel { edges: entered::<FlowEdge>(st2.edges, edge), ..st2 },
                                "DECLARED_TOPOLOGY_HANDOFF"@,
                                row.target_callable_id,
                                seq!["VERIFY_RUNTIME_COMPONENT_HANDOFF"@],
                                support,
                            )
                        }
                    }
                },
            },
        }
    }
}

/// The order of a use inside its callable: what it rests on, the graph and its
/// nodes.
pub open spec fn order_of(cx: FlowContext, source: FlowSource, row: UseFactModel) -> (
    FlowOrderAuthority,
    Option<Seq<char>>,
    Seq<u64>,
) {
    match cx.cfg {
        None => (FlowOrderAuthority::UnorderedStaticRelation, None, Seq::empty()),
        Some(catalog) => {
            let key = (cx.request.member_alias, source.symbol);
            if catalog.dom().contains(key) {
                match cfg_nodes_of(row, catalog[key].payload) {
                    Some(ids) => (
                        FlowOrderAuthority::CompilerCfg,
                        Some(catalog[key].payload.graph_id),
                        ids,
                    ),
                    None => (FlowOrderAuthority::Unknown, None, Seq::empty()),
                }
            } else {
                (FlowOrderAuthority::Unknown, None, Seq::empty())
            }
        },
    }
}

/// Whether the graph of a callable is there but does not order a use.
pub open spec fn order_is_open(cx: FlowContext, source: FlowSource, row: UseFactModel) -> bool {
    match cx.cfg {
        None => false,
        Some(catalog) => {
            let key = (cx.request.member_alias, source.symbol);
            catalog.dom().contains(key) && cfg_nodes_of(row, catalog[key].payload) is None
        },
    }
}

/// The state after a use whose target is declared once in the same member.
pub open spec fn callable_step(
    cx: FlowContext,
    st: FlowStateModel,
    source: FlowSource,
    f: IndexedFactModel,
    row: UseFactModel,
    target_symbol: Seq<char>,
    target: IndexedFactModel,
) -> Result<FlowStateModel, ErrorModel> {
    let support = seq![support_of(f)];
    let depth = (source.depth + 1) as usize;
    match node_of(cx, target, depth) {
        Err(e) => Err(e),
        Ok(node) => if !has_key::<FlowNode>(st.nodes, node.node_id) && st.nodes.len()
            >= cx.request.budgets.max_nodes {
            with_boundary(
                cx,
                cut(st),
                "FLOW_NODE_BUDGET_TRUNCATED"@,
                target_symbol,
                seq!["SELECT_NARROWER_ROOT"@],
                support,
            )
        } else {
            let st2 = FlowStateModel { nodes: entered::<FlowNode>(st.nodes, node), ..st };
            if st2.edges.len() >= cx.request.budgets.max_edges {
                with_boundary(
                    cx,
                    cut(st2),
                    "FLOW_EDGE_BUDGET_TRUNCATED"@,
                    source.symbol,
                    seq!["SELECT_NARROWER_ROOT"@],
                    support,
                )
            } else {
                let ordered = if order_is_open(cx, source, row) {
                    with_boundary(
                        cx,
                        st2,
                        "VERIFY_CONTROL_FLOW_ORDER"@,
                        source.symbol,
                        seq!["VERIFY_CONTROL_FLOW_ORDER"@],
                        support,
                    )
                } else {
                    Ok(st2)
                };
                match ordered {
                    Err(e) => Err(e),
                    Ok(st3) => match record_at::<CallableMemberBinding>(
                        cx.members,
                        cx.request.member_alias,
                    ) {
                        None => corrupted("flow source has no callable authority"@),
                        Some(member) => {
                            let edge = edge_of(
                                source,
                                member,
                                node.node_id,
                                member,
                                f,
                                row,
                                edge_id_of(source.node_id, node.node_id, row.fact_id),
                                order_of(cx, source, row),
                            );
                            let st4 = FlowStateModel {
                                edges: entered::<FlowEdge>(st3.edges, edge),
                                ..st3
                            };
                            Ok(
                                if has_key::<String>(st4.visited, target_symbol) {
                                    st4
                                } else {
                                    FlowStateModel {
                                        visited: entered::<String>(st4.visited, target_symbol),
                                        queue: st4.queue.push(
                                            FlowStepModel { symbol: target_symbol, depth },
                                        ),
                                        ..st4
                                    }
                                },
                            )
                        },
                    },
                }
            }
        },
    }
}

/// The state after one use by the callable that is being followed.
#[verifier::opaque]
pub open spec fn use_step(
    cx: FlowContext,
    st: FlowStateModel,
    source: FlowSource,
    f: IndexedFactModel,
) -> Result<FlowStateModel, ErrorModel> {
    match f.fact {
        CallableFactModel::Use(row) => {
            let support = seq![support_of(f)];
            let inside = stays_inside(cx, row);
            if !inside && points_outside_pair(cx, row) {
                with_boundary(
                    cx,
                    st,
                    "TARGET_OUTSIDE_SELECTED_PAIR"@,
                    target_subject(row),
                    seq!["SELECT_PAIR_CONTAINING_TARGET_MEMBER"@],
                    support,
                )
            } else if !inside && row.relationship_authority
                == RelationshipAuthority::VerifiedSameSnapshotCompilationDependency {
                with_boundary(
                    cx,
                    st,
                    "UNSUPPORTED_EXACT_PAIR_DEPENDENCY"@,
                    target_subject(row),
                    seq!["VERIFY_PAIR_DEPENDENCY_OUTSIDE_V1"@],
                    support,
                )
            } else if !inside && row.relationship_authority
                == RelationshipAuthority::DeclaredTopology {
                handoff_step(cx, st, source, f, row)
            } else if !inside {
                with_boundary(
                    cx,
                    st,
                    "UNBOUND_COMPONENT_TARGET"@,
                    row.target_callable_id,
                    seq!["BIND_TARGET_TO_SELECTED_PAIR"@],
                    support,
                )
            } else {
                match exact_target(row) {
                    None => with_boundary(
                        cx,
                        st,
                        "UNRESOLVED_TARGET"@,
                        row.target_callable_id,
                        seq!["RESOLVE_EXACT_FULL_SYMBOL"@],
                        support,
                    ),
                    Some(symbol) => {
                        let targets = declarations_of(cx.facts, cx.request.member_alias, symbol);
                        if targets.len() == 0 {
                            with_boundary(
                                cx,
                                st,
                                "MISSING_TARGET_DECLARATION"@,
                                symbol,
                                seq!["VERIFY_TARGET_DECLARATION_IN_RETAINED_FACT_SET"@],
                                support,
                            )
                        } else if targets.len() != 1 {
                            with_boundary(
                                cx,
                                st,
                                "AMBIGUOUS_TARGET_DECLARATION"@,
                                symbol,
                                seq!["DISAMBIGUATE_TARGET_FULL_SYMBOL"@],
                                support,
                            )
                        } else {
                            callable_step(cx, st, source, f, row, symbol, targets[0])
                        }
                    },
                }
            }
        },
        _ => Ok(st),
    }
}

/// The state after the uses from the `i`-th on.
pub open spec fn uses_step(
    cx: FlowContext,
    st: FlowStateModel,
    source: FlowSource,
    uses: Seq<IndexedFactModel>,
    i: int,
) -> Result<FlowStateModel, ErrorModel>
    decreases uses.len() - i,
{
    if i < 0 || i >= uses.len() {
        Ok(st)
    } else {
        match use_step(cx, st, source, uses[i]) {
            Err(e) => Err(e),
            Ok(st2) => uses_step(cx, st2, source, uses, i + 1),
        }
    }
}

/// The state after a callable was followed.
pub open spec fn symbol_step(
    cx: FlowContext,
    st: FlowStateModel,
    symbol: Seq<char>,
    depth: usize,
) -> Result<FlowStateModel, ErrorModel> {
    let member = cx.request.member_alias;
    match node_for(st.nodes, member, symbol) {
        None => corrupted("flow traversal lost a visited callable node"@),
        Some(node_id) => {
            let declared = declarations_of(cx.facts, member, symbol);
            if declared.len() == 0 {
                corrupted("visited flow callable lost its declaration"@)
            } else {
                match declared[0].fact->Declaration_0.compiler_callable_id {
                    None => with_boundary(
                        cx,
                        st,
                        "MISSING_SOURCE_CALLABLE_ID"@,
                        symbol,
                        seq!["VERIFY_EXACT_SOURCE_CALLABLE_ID"@],
                        seq![support_of(declared[0])],
                    ),
                    Some(callable_id) => {
                        let outgoing = outgoing_of(cx.facts, member, callable_id);
                        if family_of(cx.facts, member, callable_id).len() != 1 {
                            with_boundary(
                                cx,
                                st,
                                "AMBIGUOUS_SOURCE_OWNER_OVERLOAD"@,
                                callable_id,
                                seq!["DISAMBIGUATE_RELATION_SOURCE_OVERLOAD"@],
                                seq![support_of(declared[0])],
                            )
                        } else if depth >= cx.request.budgets.max_depth && outgoing.len() > 0 {
                            with_boundary(
                                cx,
                                cut(st),
                                "FLOW_DEPTH_TRUNCATED"@,
                                symbol,
                                seq!["INCREASE_MAX_DEPTH_OR_SELECT_NARROWER_ROOT"@],
                                Seq::empty(),
                            )
                        } else {
                            uses_step(
                                cx,
                                st,
                                FlowSource { symbol, depth, node_id },
                                outgoing,
                                0,
                            )
                        }
                    },
                }
            }
        },
    }
}

/// The state after at most `n` callables of the queue were followed, first in,
/// first out.
pub open spec fn traversed(cx: FlowContext, st: FlowStateModel, n: nat) -> Result<
    FlowStateModel,
    ErrorModel,
>
    decreases n,
{
    if n == 0 || st.queue.len() == 0 {
        Ok(st)
    } else {
        let next = st.queue[0];
        let rest = FlowStateModel { queue: st.queue.drop_first(), ..st };
        match symbol_step(cx, rest, next.symbol, next.depth) {
            Err(e) => Err(e),
            Ok(st2) => traversed(cx, st2, (n - 1) as nat),
        }
    }
}

impl FlowState {
    fn take_handoff(
        &mut self,
        input: &FlowInput,
        symbol: &str,
        depth: usize,
        node_id: &str,
        f: &IndexedFact,
        row: &UseFact,
    ) -> (r: Result<(), ClewError>)
        requires
            depth < usize::MAX,
            f.deep_view().fact == CallableFactModel::Use(row.deep_view()),
            row.deep_view().relationship_authority == RelationshipAuthority::DeclaredTopology,
        ensures
            changed(
                r,
                final(self).deep_view(),
                handoff_step(
                    input.context(),
                    old(self).deep_view(),
                    FlowSource { symbol: symbol@, depth, node_id: node_id@ },
                    f.deep_view(),
                    row.deep_view(),
                ),
            ),
    {
        if !sole_declared_pair(input) {
            return self.add_boundary(
                input,
                "AMBIGUOUS_DECLARED_TOPOLOGY_HANDOFF",
                row.target_callable_id.as_str(),
                one("DISAMBIGUATE_DECLARED_COMPONENT_PAIR"),
                only(f),
            );
        }
        if !same_text(input.request.member_alias.as_str(), input.pair.consumer_member.as_str()) {
            return self.add_boundary(
                input,
                "DECLARED_TOPOLOGY_DIRECTION_MISMATCH",
                row.target_callable_id.as_str(),
                one("VERIFY_DECLARED_CONSUMER_PROVIDER_DIRECTION"),
                only(f),
            );
        }
        let target = match find_record(&input.members, input.pair.provider_member.as_str()) {
            Some(target) => target,
            None => {
                return Err(corrupt("selected provider has no callable authority"));
            },
        };
        let source_member = match find_record(
            &input.members,
            input.request.member_alias.as_str(),
        ) {
            Some(member) => member,
            None => {
                return Err(corrupt("flow source has no callable authority"));
            },
        };
        let node = declared_handoff_node(target, row.target_callable_id.as_str(), depth + 1);
        let target_node_id = node.node_id.clone();
        if !contains_key(&self.nodes, target_node_id.as_str()) && self.nodes.len()
            >= input.request.budgets.max_nodes {
            self.truncated = true;
            return self.add_boundary(
                input,
                "FLOW_NODE_BUDGET_TRUNCATED",
                row.target_callable_id.as_str(),
                one("SELECT_NARROWER_ROOT"),
                only(f),
            );
        }
        enter(&mut self.nodes, node);
        if self.edges.len() >= input.request.budgets.max_edges {
            self.truncated = true;
            return self.add_boundary(
                input,
                "FLOW_EDGE_BUDGET_TRUNCATED",
                symbol,
                one("SELECT_NARROWER_ROOT"),
                only(f),
            );
        }
        let material = Json::object().with("source", Json::Str(node_id.to_owned())).with(
            "target",
            Json::Str(target_node_id.clone()),
        ).with("fact", Json::Str(row.fact_id.clone())).with(
            "authority",
            Json::Str("DECLARED_TOPOLOGY".to_owned()),
        );
        let cfg_node_ids: Vec<u64> = Vec::new();
        assert(cfg_node_ids.deep_view() =~= Seq::empty());
        enter(
            &mut self.edges,
            FlowEdge {
                edge_id: make_id("flow-edge", &material),
                source_node_id: node_id.to_owned(),
                target_node_id,
                source_member_alias: source_member.member_alias.clone(),
                source_service_alias: source_member.service_alias.clone(),
                source_repository_namespace: source_member.repository_namespace.clone(),
                target_member_alias: target.member_alias.clone(),
                target_service_alias: target.service_alias.clone(),
                target_repository_namespace: target.repository_namespace.clone(),
                relation_kind: row.relation_kind.clone(),
                relationship_authority: RelationshipAuthority::DeclaredTopology,
                order_authority: FlowOrderAuthority::Unknown,
                cfg_graph_id: None,
                cfg_node_ids,
                support_refs: only(f),
            },
        );
        self.add_boundary(
            input,
            "DECLARED_TOPOLOGY_HANDOFF",
            row.target_callable_id.as_str(),
            one("VERIFY_RUNTIME_COMPONENT_HANDOFF"),
            only(f),
        )
    }

    /// The order of a use, and whether it is open.
    fn find_order(input: &FlowInput, symbol: &str, row: &UseFact) -> (r: (
        FlowOrderAuthority,
        Option<String>,
        Vec<u64>,
        bool,
    ))
        ensures
            forall|depth: usize, node_id: Seq<char>| #[trigger]
                order_of(
                    input.context(),
                    FlowSource { symbol: symbol@, depth, node_id },
                    row.deep_view(),
                ) == (r.0, r.1.deep_view(), r.2.deep_view()),
            forall|depth: usize, node_id: Seq<char>| #[trigger]
                order_is_open(
                    input.context(),
                    FlowSource { symbol: symbol@, depth, node_id },
                    row.deep_view(),
                ) == r.3,
    {
        let none: Vec<u64> = Vec::new();
        assert(none.deep_view() =~= Seq::empty());
        match input.cfg {
            None => (FlowOrderAuthority::UnorderedStaticRelation, None, none, false),
            Some(catalog) => match catalog.get(input.request.member_alias.as_str(), symbol) {
                Some(graph) => match relation_cfg_nodes(row, &graph.payload) {
                    Some(ids) => {
                        assert(ids.deep_view() =~= ids@);
                        (
                            FlowOrderAuthority::CompilerCfg,
                            Some(graph.payload.graph_id.clone()),
                            ids,
                            false,
                        )
                    },
                    None => (FlowOrderAuthority::Unknown, None, none, true),
                },
                None => (FlowOrderAuthority::Unknown, None, none, false),
            },
        }
    }

    fn take_callable(
        &mut self,
        input: &FlowInput,
        symbol: &str,
        depth: usize,
        node_id: &str,
        f: &IndexedFact,
        row: &UseFact,
        target_symbol: &str,
        target: &IndexedFact,
    ) -> (r: Result<(), ClewError>)
        requires
            depth < usize::MAX,
        ensures
            changed(
                r,
                final(self).deep_view(),
                callable_step(
                    input.context(),
                    old(self).deep_view(),
                    FlowSource { symbol: symbol@, depth, node_id: node_id@ },
                    f.deep_view(),
                    row.deep_view(),
                    target_symbol@,
                    target.deep_view(),
                ),
            ),
    {
        let ghost source = FlowSource { symbol: symbol@, depth, node_id: node_id@ };
        let node = callable_node(input, target, depth + 1)?;
        let target_node_id = node.node_id.clone();
        if !contains_key(&self.nodes, target_node_id.as_str()) && self.nodes.len()
            >= input.request.budgets.max_nodes {
            self.truncated = true;
            return self.add_boundary(
                input,
                "FLOW_NODE_BUDGET_TRUNCATED",
                target_symbol,
                one("SELECT_NARROWER_ROOT"),
                only(f),
            );
        }
        enter(&mut self.nodes, node);
        if self.edges.len() >= input.request.budgets.max_edges {
            self.truncated = true;
            return self.add_boundary(
                input,
                "FLOW_EDGE_BUDGET_TRUNCATED",
                symbol,
                one("SELECT_NARROWER_ROOT"),
                only(f),
            );
        }
        let material = Json::object().with("source", Json::Str(node_id.to_owned())).with(
            "target",
            Json::Str(target_node_id.clone()),
        ).with("fact", Json::Str(row.fact_id.clone()));
        let (order_authority, cfg_graph_id, cfg_node_ids, open) = FlowState::find_order(
            input,
            symbol,
            row,
        );
        assert(order_of(input.context(), source, row.deep_view()) == (
            order_authority,
            cfg_graph_id.deep_view(),
            cfg_node_ids.deep_view(),
        ));
        assert(order_is_open(input.context(), source, row.deep_view()) == open);
        if open {
            self.add_boundary(
                input,
                "VERIFY_CONTROL_FLOW_ORDER",
                symbol,
                one("VERIFY_CONTROL_FLOW_ORDER"),
                only(f),
            )?;
        }
        let member = match find_record(&input.members, input.request.member_alias.as_str()) {
            Some(member) => member,
            None => {
                return Err(corrupt("flow source has no callable authority"));
            },
        };
        enter(
            &mut self.edges,
            FlowEdge {
                edge_id: make_id("flow-edge", &material),
                source_node_id: node_id.to_owned(),
                target_node_id,
                source_member_alias: member.member_alias.clone(),
                source_service_alias: member.service_alias.clone(),
                source_repository_namespace: member.repository_namespace.clone(),
                target_member_alias: member.member_alias.clone(),
                target_service_alias: member.service_alias.clone(),
                target_repository_namespace: member.repository_namespace.clone(),
                relation_kind: row.relation_kind.clone(),
                relationship_authority: row.relationship_authority,
                order_authority,
                cfg_graph_id,
                cfg_node_ids,
                support_refs: only(f),
            },
        );
        if !contains_key(&self.visited, target_symbol) {
            enter(&mut self.visited, target_symbol.to_owned());
            let ghost queued = self.queue.deep_view();
            self.queue.push(FlowStep { symbol: target_symbol.to_owned(), depth: depth + 1 });
            assert(self.queue.deep_view() =~= queued.push(
                FlowStepModel { symbol: target_symbol@, depth: (depth + 1) as usize },
            ));
        }
        Ok(())
    }

    fn take_use(
        &mut self,
        input: &FlowInput,
        symbol: &str,
        depth: usize,
        node_id: &str,
        f: &IndexedFact,
    ) -> (r: Result<(), ClewError>)
        requires
            depth < usize::MAX,
        ensures
            changed(
                r,
                final(self).deep_view(),
                use_step(
                    input.context(),
                    old(self).deep_view(),
                    FlowSource { symbol: symbol@, depth, node_id: node_id@ },
                    f.deep_view(),
                ),
            ),
    {
        proof {
            reveal(use_step);
        }
        let row = match &f.fact {
            CallableFact::Use(row) => row,
            _ => {
                return Ok(());
            },
        };
        let ghost cx = input.context();
        let exact = if row.target_resolution == TargetResolution::ExactSymbol {
            row.target_symbol_identity.copied()
        } else {
            None
        };
        assert(exact.deep_view() == exact_target(row.deep_view()));
        let member = match &row.target_repository_namespace {
            Some(namespace) => find_namespace(&input.members, namespace.as_str()),
            None => None,
        };
        assert(member.deep_view() == target_member(cx, row.deep_view()));
        let verified = row.relationship_authority
            == RelationshipAuthority::VerifiedSameSnapshotCompilationDependency;
        let at_home = match &member {
            Some(m) => same_text(m.as_str(), input.request.member_alias.as_str()),
            None => false,
        };
        let inside = at_home && verified;
        assert(inside == stays_inside(cx, row.deep_view()));
        let outside_pair = match &member {
            Some(m) => !same_text(m.as_str(), input.pair.provider_member.as_str()) && !same_text(
                m.as_str(),
                input.pair.consumer_member.as_str(),
            ),
            None => false,
        };
        let subject = match &exact {
            Some(s) => s.clone(),
            None => row.target_callable_id.clone(),
        };
        assert(subject@ == target_subject(row.deep_view()));
        if !inside && outside_pair {
            return self.add_boundary(
                input,
                "TARGET_OUTSIDE_SELECTED_PAIR",
                subject.as_str(),
                one("SELECT_PAIR_CONTAINING_TARGET_MEMBER"),
                only(f),
            );
        }
        if !inside && verified {
            return self.add_boundary(
                input,
                "UNSUPPORTED_EXACT_PAIR_DEPENDENCY",
                subject.as_str(),
                one("VERIFY_PAIR_DEPENDENCY_OUTSIDE_V1"),
                only(f),
            );
        }
        if !inside && row.relationship_authority == RelationshipAuthority::DeclaredTopology {
            return self.take_handoff(input, symbol, depth, node_id, f, row);
        }
        if !inside {
            return self.add_boundary(
                input,
                "UNBOUND_COMPONENT_TARGET",
                row.target_callable_id.as_str(),
                one("BIND_TARGET_TO_SELECTED_PAIR"),
                only(f),
            );
        }
        let target_symbol = match &exact {
            Some(s) => s,
            None => {
                return self.add_boundary(
                    input,
                    "UNRESOLVED_TARGET",
                    row.target_callable_id.as_str(),
                    one("RESOLVE_EXACT_FULL_SYMBOL"),
                    only(f),
                );
            },
        };
        let targets = find_declarations(
            &input.facts,
            input.request.member_alias.as_str(),
            target_symbol.as_str(),
        );
        if targets.len() == 0 {
            return self.add_boundary(
                input,
                "MISSING_TARGET_DECLARATION",
                target_symbol.as_str(),
                one("VERIFY_TARGET_DECLARATION_IN_RETAINED_FACT_SET"),
                only(f),
            );
        }
        if targets.len() != 1 {
            return self.add_boundary(
                input,
                "AMBIGUOUS_TARGET_DECLARATION",
                target_symbol.as_str(),
                one("DISAMBIGUATE_TARGET_FULL_SYMBOL"),
                only(f),
            );
        }
        let target = &input.facts[targets[0]];
        assert(target.deep_view() == cx.facts[targets@[0] as int]);
        self.take_callable(
            input,
            symbol,
            depth,
            node_id,
            f,
            row,
            target_symbol.as_str(),
            target,
        )
    }

    fn take_uses(
        &mut self,
        input: &FlowInput,
        symbol: &str,
        depth: usize,
        node_id: &str,
        places: &Vec<usize>,
        Ghost(uses): Ghost<Seq<IndexedFactModel>>,
    ) -> (r: Result<(), ClewError>)
        requires
            places@.len() > 0 ==> depth < usize::MAX,
            places@.len() == uses.len(),
            forall|k: int|
                0 <= k < places@.len() ==> (#[trigger] places@[k]) < input.facts@.len()
                    && input.context().facts[places@[k] as int] == uses[k],
        ensures
            changed(
                r,
                final(self).deep_view(),
                uses_step(
                    input.context(),
                    old(self).deep_view(),
                    FlowSource { symbol: symbol@, depth, node_id: node_id@ },
                    uses,
                    0,
                ),
            ),
    {
        let ghost cx = input.context();
        let ghost source = FlowSource { symbol: symbol@, depth, node_id: node_id@ };
        let ghost expected = uses_step(cx, self.deep_view(), source, uses, 0);
        let mut i: usize = 0;
        while i < places.len()
            invariant
                i <= places.len(),
                cx == input.context(),
                places@.len() > 0 ==> depth < usize::MAX,
                source == (FlowSource { symbol: symbol@, depth, node_id: node_id@ }),
                places@.len() == uses.len(),
                forall|k: int|
                    0 <= k < places@.len() ==> (#[trigger] places@[k]) < input.facts@.len()
                        && cx.facts[places@[k] as int] == uses[k],
                expected == uses_step(cx, old(self).deep_view(), source, uses, 0),
                expected == uses_step(cx, self.deep_view(), source, uses, i as int),
            decreases places.len() - i,
        {
            let f = &input.facts[places[i]];
            assert(f.deep_view() == cx.facts[places@[i as int] as int]);
            self.take_use(input, symbol, depth, node_id, f)?;
            i = i + 1;
        }
        Ok(())
    }

    fn take_symbol(&mut self, input: &FlowInput, symbol: &str, depth: usize) -> (r: Result<
        (),
        ClewError,
    >)
        requires
            input.request.budgets.max_depth <= MAX_FLOW_DEPTH,
        ensures
            changed(
                r,
                final(self).deep_view(),
                symbol_step(input.context(), old(self).deep_view(), symbol@, depth),
            ),
    {
        let ghost cx = input.context();
        let member = input.request.member_alias.as_str();
        let node_id = match node_for_symbol(&self.nodes, member, symbol) {
            Some(id) => id,
            None => {
                return Err(corrupt("flow traversal lost a visited callable node"));
            },
        };
        let declared = find_declarations(&input.facts, member, symbol);
        if declared.len() == 0 {
            return Err(corrupt("visited flow callable lost its declaration"));
        }
        let declaration = &input.facts[declared[0]];
        proof {
            let all = declarations_of(cx.facts, member@, symbol@);
            assert(declaration.deep_view() == cx.facts[declared@[0] as int]);
            cx.facts.lemma_filter_pred(
                |f: IndexedFactModel| declares(f, member@, symbol@),
                0,
            );
        }
        let row = match &declaration.fact {
            CallableFact::Declaration(row) => row,
            _ => {
                return Err(corrupt("visited flow callable lost its declaration"));
            },
        };
        let callable_id = match &row.compiler_callable_id {
            Some(id) => id,
            None => {
                return self.add_boundary(
                    input,
                    "MISSING_SOURCE_CALLABLE_ID",
                    symbol,
                    one("VERIFY_EXACT_SOURCE_CALLABLE_ID"),
                    only(declaration),
                );
            },
        };
        if count_family(&input.facts, member, callable_id.as_str()) != 1 {
            return self.add_boundary(
                input,
                "AMBIGUOUS_SOURCE_OWNER_OVERLOAD",
                callable_id.as_str(),
                one("DISAMBIGUATE_RELATION_SOURCE_OVERLOAD"),
                only(declaration),
            );
        }
        let outgoing = find_outgoing(&input.facts, member, callable_id.as_str());
        if depth >= input.request.budgets.max_depth && outgoing.len() > 0 {
            self.truncated = true;
            let nothing: Vec<FlowSupportRef> = Vec::new();
            assert(nothing.deep_view() =~= Seq::empty());
            return self.add_boundary(
                input,
                "FLOW_DEPTH_TRUNCATED",
                symbol,
                one("INCREASE_MAX_DEPTH_OR_SELECT_NARROWER_ROOT"),
                nothing,
            );
        }
        self.take_uses(
            input,
            symbol,
            depth,
            node_id.as_str(),
            &outgoing,
            Ghost(outgoing_of(cx.facts, member@, callable_id@)),
        )
    }
}

/// The symbol that a fact declares, if it declares one.
pub open spec fn symbol_of(f: IndexedFactModel) -> Seq<char> {
    match f.fact {
        CallableFactModel::Declaration(row) => row.symbol_identity,
        _ => Seq::empty(),
    }
}

/// Whether the visited symbols are a table of symbols that the facts declare.
pub open spec fn on_track(cx: FlowContext, st: FlowStateModel) -> bool {
    &&& is_table::<String>(st.visited)
    &&& forall|k: int|
        0 <= k < st.visited.len() ==> declarations_of(
            cx.facts,
            cx.request.member_alias,
            #[trigger] st.visited[k],
        ).len() > 0
}

/// Following a use visits at most one more symbol, which the facts declare, and
/// queues what it visits.
proof fn use_step_keeps_track(
    cx: FlowContext,
    st: FlowStateModel,
    source: FlowSource,
    f: IndexedFactModel,
    after: FlowStateModel,
)
    requires
        on_track(cx, st),
        use_step(cx, st, source, f) == Ok::<FlowStateModel, ErrorModel>(after),
    ensures
        on_track(cx, after),
        after.visited.len() - after.queue.len() == st.visited.len() - st.queue.len(),
{
    reveal(use_step);
    if after.visited != st.visited {
        let row = f.fact->Use_0;
        let symbol = exact_target(row).unwrap();
        entered_keeps_table::<String>(st.visited, symbol);
        assert(after.visited == entered::<String>(st.visited, symbol));
        assert forall|k: int| 0 <= k < after.visited.len() implies declarations_of(
            cx.facts,
            cx.request.member_alias,
            #[trigger] after.visited[k],
        ).len() > 0 by {
            if after.visited[k] != symbol {
                assert(st.visited.contains(after.visited[k]));
                let j = choose|j: int|
                    0 <= j < st.visited.len() && st.visited[j] == after.visited[k];
                assert(declarations_of(cx.facts, cx.request.member_alias, st.visited[j]).len() > 0);
            }
        }
    } else {
        assert(after.queue == st.queue) by {
            if f.fact is Use {
                let row = f.fact->Use_0;
                if exact_target(row) is Some {
                    entered_keeps_table::<String>(st.visited, exact_target(row).unwrap());
                }
            }
        }
    }
}

proof fn uses_step_keeps_track(
    cx: FlowContext,
    st: FlowStateModel,
    source: FlowSource,
    uses: Seq<IndexedFactModel>,
    i: int,
    after: FlowStateModel,
)
    requires
        on_track(cx, st),
        0 <= i,
        uses_step(cx, st, source, uses, i) == Ok::<FlowStateModel, ErrorModel>(after),
    ensures
        on_track(cx, after),
        after.visited.len() - after.queue.len() == st.visited.len() - st.queue.len(),
    decreases uses.len() - i,
{
    if i < uses.len() {
        let st2 = use_step(cx, st, source, uses[i])->Ok_0;
        use_step_keeps_track(cx, st, source, uses[i], st2);
        uses_step_keeps_track(cx, st2, source, uses, i + 1, after);
    }
}

proof fn symbol_step_keeps_track(
    cx: FlowContext,
    st: FlowStateModel,
    symbol: Seq<char>,
    depth: usize,
    after: FlowStateModel,
)
    requires
        on_track(cx, st),
        symbol_step(cx, st, symbol, depth) == Ok::<FlowStateModel, ErrorModel>(after),
    ensures
        on_track(cx, after),
        after.visited.len() - after.queue.len() == st.visited.len() - st.queue.len(),
{
    let member = cx.request.member_alias;
    let node_id = node_for(st.nodes, member, symbol).unwrap();
    let declared = declarations_of(cx.facts, member, symbol);
    let id = declared[0].fact->Declaration_0.compiler_callable_id;
    if id is Some && family_of(cx.facts, member, id.unwrap()).len() == 1 && !(depth
        >= cx.request.budgets.max_depth && outgoing_of(cx.facts, member, id.unwrap()).len() > 0) {
        uses_step_keeps_track(
            cx,
            st,
            FlowSource { symbol, depth, node_id },
            outgoing_of(cx.facts, member, id.unwrap()),
            0,
            after,
        );
    }
}

/// There are at most as many visited symbols as facts.
proof fn visited_at_most_facts(cx: FlowContext, st: FlowStateModel)
    requires
        on_track(cx, st),
    ensures
        st.visited.len() <= cx.facts.len(),
{
    let symbols = Seq::new(cx.facts.len(), |i: int| symbol_of(cx.facts[i]));
    assert(st.visited.no_duplicates()) by {
        assert forall|i: int, j: int|
            0 <= i < st.visited.len() && 0 <= j < st.visited.len() && i != j implies st.visited[i]
            != st.visited[j] by {
            if st.visited[i] == st.visited[j] {
                crate::text::text_less_irreflexive(st.visited[i]);
                if i < j {
                    assert(crate::text::text_less(st.visited[i], st.visited[j])) by {
                        assert(String::key(st.visited[i]) == st.visited[i]);
                        assert(String::key(st.visited[j]) == st.visited[j]);
                    }
                } else {
                    assert(crate::text::text_less(st.visited[j], st.visited[i])) by {
                        assert(String::key(st.visited[i]) == st.visited[i]);
                        assert(String::key(st.visited[j]) == st.visited[j]);
                    }
                }
            }
        }
    }
    st.visited.unique_seq_to_set();
    assert forall|x: Seq<char>| st.visited.to_set().contains(x) implies symbols.to_set().contains(
        x,
    ) by {
        let k = choose|k: int| 0 <= k < st.visited.len() && st.visited[k] == x;
        let member = cx.request.member_alias;
        let pred = |f: IndexedFactModel| declares(f, member, x);
        let declared = declarations_of(cx.facts, member, st.visited[k]);
        assert(declared.len() > 0);
        cx.facts.lemma_filter_pred(pred, 0);
        let f = declared[0];
        assert(declared.contains(f));
        cx.facts.lemma_filter_contains_rev(pred, f);
        let i = choose|i: int| 0 <= i < cx.facts.len() && cx.facts[i] == f;
        assert(symbols[i] == x);
    }
    vstd::seq_lib::seq_to_set_is_finite(symbols);
    vstd::set_lib::lemma_len_subset(st.visited.to_set(), symbols.to_set());
    symbols.lemma_cardinality_of_set();
}

impl FlowState {
    /// Follows the callables of the queue until it is empty.
    fn traverse(&mut self, input: &FlowInput) -> (r: Result<(), ClewError>)
        requires
            input.request.budgets.max_depth <= MAX_FLOW_DEPTH,
            on_track(input.context(), old(self).deep_view()),
            old(self).deep_view().queue.len() == old(self).deep_view().visited.len(),
        ensures
            changed(
                r,
                final(self).deep_view(),
                traversed(input.context(), old(self).deep_view(), input.facts@.len()),
            ),
            r is Ok ==> final(self).deep_view().queue.len() == 0 && on_track(
                input.context(),
                final(self).deep_view(),
            ),
    {
        let ghost cx = input.context();
        let ghost start = self.deep_view();
        let ghost mut left: nat = cx.facts.len();
        while self.queue.len() > 0
            invariant
                cx == input.context(),
                input.request.budgets.max_depth <= MAX_FLOW_DEPTH,
                start == old(self).deep_view(),
                cx.facts.len() == input.facts@.len(),
                on_track(cx, self.deep_view()),
                self.deep_view().visited.len() - self.deep_view().queue.len() + left
                    == cx.facts.len(),
                traversed(cx, start, cx.facts.len()) == traversed(cx, self.deep_view(), left),
            decreases left,
        {
            proof {
                visited_at_most_facts(cx, self.deep_view());
            }
            let ghost before = self.deep_view();
            let next = self.queue.remove(0);
            assert(next.deep_view() == before.queue[0]);
            assert(self.queue.deep_view() =~= before.queue.drop_first());
            let ghost rest = self.deep_view();
            self.take_symbol(input, next.symbol.as_str(), next.depth)?;
            proof {
                symbol_step_keeps_track(cx, rest, next.symbol@, next.depth, self.deep_view());
                left = (left - 1) as nat;
            }
        }
        Ok(())
    }
}

/// The state with a boundary for each support of a subject, from the `i`-th on,
/// that has no source.
pub open spec fn supports_anchored(
    cx: FlowContext,
    st: FlowStateModel,
    subject: Seq<char>,
    supports: Seq<FlowSupportRefModel>,
    i: int,
) -> Result<FlowStateModel, ErrorModel>
    decreases supports.len() - i,
{
    if i < 0 || i >= supports.len() {
        Ok(st)
    } else if supports[i].source is Some {
        supports_anchored(cx, st, subject, supports, i + 1)
    } else {
        match with_boundary(
            cx,
            st,
            "MISSING_SOURCE_ANCHOR"@,
            subject,
            seq!["VERIFY_EXACT_SOURCE_ANCHOR"@],
            seq![supports[i]],
        ) {
            Err(e) => Err(e),
            Ok(st2) => supports_anchored(cx, st2, subject, supports, i + 1),
        }
    }
}

/// The state with a boundary for each support without a source of the nodes from
/// the `i`-th on.
pub open spec fn nodes_anchored(
    cx: FlowContext,
    st: FlowStateModel,
    nodes: Seq<FlowNodeModel>,
    i: int,
) -> Result<FlowStateModel, ErrorModel>
    decreases nodes.len() - i,
{
    if i < 0 || i >= nodes.len() {
        Ok(st)
    } else {
        match supports_anchored(cx, st, nodes[i].symbol_identity, nodes[i].support_refs, 0) {
            Err(e) => Err(e),
            Ok(st2) => nodes_anchored(cx, st2, nodes, i + 1),
        }
    }
}

/// The state with a boundary for each support without a source of the edges from
/// the `i`-th on.
pub open spec fn edges_anchored(
    cx: FlowContext,
    st: FlowStateModel,
    edges: Seq<FlowEdgeModel>,
    i: int,
) -> Result<FlowStateModel, ErrorModel>
    decreases edges.len() - i,
{
    if i < 0 || i >= edges.len() {
        Ok(st)
    } else {
        match supports_anchored(cx, st, edges[i].source_node_id, edges[i].support_refs, 0) {
            Err(e) => Err(e),
            Ok(st2) => edges_anchored(cx, st2, edges, i + 1),
        }
    }
}

/// Whether a boundary fact is about a visited symbol of the selected pair.
pub open spec fn is_relevant_boundary(cx: FlowContext, st: FlowStateModel, f: IndexedFactModel) -> bool {
    match f.fact {
        CallableFactModel::Boundary(row) => {
            &&& in_pair(cx, row.provenance.member_alias)
            &&& row.provenance.member_alias == cx.request.member_alias
            &&& row.subject is Some
            &&& has_key::<String>(st.visited, row.subject.unwrap())
        },
        _ => false,
    }
}

/// The state with a boundary for each relevant boundary fact from the `i`-th on.
pub open spec fn facts_bounded(cx: FlowContext, st: FlowStateModel, i: int) -> Result<
    FlowStateModel,
    ErrorModel,
>
    decreases cx.facts.len() - i,
{
    if i < 0 || i >= cx.facts.len() {
        Ok(st)
    } else if !is_relevant_boundary(cx, st, cx.facts[i]) {
        facts_bounded(cx, st, i + 1)
    } else {
        let row = cx.facts[i].fact->Boundary_0;
        match with_boundary(
            cx,
            st,
            row.code,
            row.subject.unwrap(),
            row.required_checks,
            seq![support_of(cx.facts[i])],
        ) {
            Err(e) => Err(e),
            Ok(st2) => facts_bounded(cx, st2, i + 1),
        }
    }
}

/// The region of a callable with a graph.
pub open spec fn region_of(owner: Seq<char>, graph: PreparedLocalCfgModel) -> FlowControlRegionModel {
    FlowControlRegionModel {
        region_id: stable_id(
            "flow-cfg-region"@,
            JsonModel::object().with("ownerNodeId"@, JsonModel::Str(owner)).with(
                "graphId"@,
                JsonModel::Str(graph.payload.graph_id),
            ).with("support"@, <LocalCfgSupport as Record>::json(graph.support)),
        ),
        owner_node_id: owner,
        graph: graph.payload,
        support: graph.support,
    }
}

/// The state and the regions after a visited symbol: with a graph it has a region,
/// without one a boundary.
pub open spec fn region_step(
    cx: FlowContext,
    catalog: Map<(Seq<char>, Seq<char>), PreparedLocalCfgModel>,
    st: FlowStateModel,
    regions: Seq<FlowControlRegionModel>,
    symbol: Seq<char>,
) -> Result<(FlowStateModel, Seq<FlowControlRegionModel>), ErrorModel> {
    let key = (cx.request.member_alias, symbol);
    match node_for(st.nodes, cx.request.member_alias, symbol) {
        None => Ok((st, regions)),
        Some(owner) => if catalog.dom().contains(key) {
            Ok((st, regions.push(region_of(owner, catalog[key]))))
        } else {
            match with_boundary(
                cx,
                st,
                "VERIFY_CONTROL_FLOW_ORDER"@,
                symbol,
                seq!["VERIFY_CONTROL_FLOW_ORDER"@],
                Seq::empty(),
            ) {
                Err(e) => Err(e),
                Ok(st2) => Ok((st2, regions)),
            }
        },
    }
}

/// The state and the regions after the symbols from the `i`-th on.
pub open spec fn regions_built(
    cx: FlowContext,
    catalog: Map<(Seq<char>, Seq<char>), PreparedLocalCfgModel>,
    st: FlowStateModel,
    regions: Seq<FlowControlRegionModel>,
    symbols: Seq<Seq<char>>,
    i: int,
) -> Result<(FlowStateModel, Seq<FlowControlRegionModel>), ErrorModel>
    decreases symbols.len() - i,
{
    if i < 0 || i >= symbols.len() {
        Ok((st, regions))
    } else {
        match region_step(cx, catalog, st, regions, symbols[i]) {
            Err(e) => Err(e),
            Ok((st2, regions2)) => regions_built(cx, catalog, st2, regions2, symbols, i + 1),
        }
    }
}

/// The state and the regions of a context without or with graphs.
pub open spec fn regions_of(cx: FlowContext, st: FlowStateModel) -> Result<
    (FlowStateModel, Seq<FlowControlRegionModel>),
    ErrorModel,
> {
    match cx.cfg {
        None => Ok((st, Seq::empty())),
        Some(catalog) => regions_built(cx, catalog, st, Seq::empty(), st.visited, 0),
    }
}

/// The state at the end: after the traversal, the supports without a source, the
/// boundary facts and the control-flow regions.
pub open spec fn completed(cx: FlowContext, st: FlowStateModel) -> Result<
    (FlowStateModel, Seq<FlowControlRegionModel>),
    ErrorModel,
> {
    match traversed(cx, st, cx.facts.len()) {
        Err(e) => Err(e),
        Ok(st1) => match nodes_anchored(cx, st1, st1.nodes, 0) {
            Err(e) => Err(e),
            Ok(st2) => match edges_anchored(cx, st2, st2.edges, 0) {
                Err(e) => Err(e),
                Ok(st3) => match facts_bounded(cx, st3, 0) {
                    Err(e) => Err(e),
                    Ok(st4) => match regions_of(cx, st4) {
                        Err(e) => Err(e),
                        Ok((st5, regions)) => Ok((st5, sorted::<FlowControlRegion>(regions))),
                    },
                },
            },
        },
    }
}

impl FlowState {
    fn anchor_supports(
        &mut self,
        input: &FlowInput,
        subject: &str,
        supports: &Vec<FlowSupportRef>,
    ) -> (r: Result<(), ClewError>)
        ensures
            changed(
                r,
                final(self).deep_view(),
                supports_anchored(
                    input.context(),
                    old(self).deep_view(),
                    subject@,
                    supports.deep_view(),
                    0,
                ),
            ),
            r is Ok ==> final(self).nodes == old(self).nodes && final(self).edges
                == old(self).edges && final(self).visited == old(self).visited,
    {
        let ghost cx = input.context();
        let ghost m = supports.deep_view();
        let ghost expected = supports_anchored(cx, self.deep_view(), subject@, m, 0);
        let mut i: usize = 0;
        while i < supports.len()
            invariant
                i <= supports.len(),
                cx == input.context(),
                m == supports.deep_view(),
                self.nodes == old(self).nodes,
                self.edges == old(self).edges,
                self.visited == old(self).visited,
                expected == supports_anchored(cx, old(self).deep_view(), subject@, m, 0),
                expected == supports_anchored(cx, self.deep_view(), subject@, m, i as int),
            decreases supports.len() - i,
        {
            assert(m[i as int] == supports@[i as int].deep_view());
            if supports[i].source.is_none() {
                let support = vec![supports[i].copied()];
                assert(support.deep_view() =~= seq![m[i as int]]);
                self.add_boundary(
                    input,
                    "MISSING_SOURCE_ANCHOR",
                    subject,
                    one("VERIFY_EXACT_SOURCE_ANCHOR"),
                    support,
                )?;
            }
            i = i + 1;
        }
        Ok(())
    }

    fn anchor_nodes(&mut self, input: &FlowInput) -> (r: Result<(), ClewError>)
        ensures
            changed(
                r,
                final(self).deep_view(),
                nodes_anchored(
                    input.context(),
                    old(self).deep_view(),
                    old(self).deep_view().nodes,
                    0,
                ),
            ),
    {
        let ghost cx = input.context();
        let ghost m = self.deep_view().nodes;
        let ghost expected = nodes_anchored(cx, self.deep_view(), m, 0);
        let mut i: usize = 0;
        while i < self.nodes.len()
            invariant
                i <= self.nodes.len(),
                cx == input.context(),
                m == old(self).deep_view().nodes,
                self.nodes == old(self).nodes,
                expected == nodes_anchored(cx, old(self).deep_view(), m, 0),
                expected == nodes_anchored(cx, self.deep_view(), m, i as int),
            decreases self.nodes.len() - i,
        {
            assert(m[i as int] == self.nodes@[i as int].deep_view());
            let subject = self.nodes[i].symbol_identity.clone();
            let supports = self.nodes[i].support_refs.copied();
            self.anchor_supports(input, subject.as_str(), &supports)?;
            i = i + 1;
        }
        Ok(())
    }

    fn anchor_edges(&mut self, input: &FlowInput) -> (r: Result<(), ClewError>)
        ensures
            changed(
                r,
                final(self).deep_view(),
                edges_anchored(
                    input.context(),
                    old(self).deep_view(),
                    old(self).deep_view().edges,
                    0,
                ),
            ),
    {
        let ghost cx = input.context();
        let ghost m = self.deep_view().edges;
        let ghost expected = edges_anchored(cx, self.deep_view(), m, 0);
        let mut i: usize = 0;
        while i < self.edges.len()
            invariant
                i <= self.edges.len(),
                cx == input.context(),
                m == old(self).deep_view().edges,
                self.edges == old(self).edges,
                expected == edges_anchored(cx, old(self).deep_view(), m, 0),
                expected == edges_anchored(cx, self.deep_view(), m, i as int),
            decreases self.edges.len() - i,
        {
            assert(m[i as int] == self.edges@[i as int].deep_view());
            let subject = self.edges[i].source_node_id.clone();
            let supports = self.edges[i].support_refs.copied();
            self.anchor_supports(input, subject.as_str(), &supports)?;
            i = i + 1;
        }
        Ok(())
    }

    fn bound_facts(&mut self, input: &FlowInput) -> (r: Result<(), ClewError>)
        ensures
            changed(
                r,
                final(self).deep_view(),
                facts_bounded(input.context(), old(self).deep_view(), 0),
            ),
    {
        let ghost cx = input.context();
        let ghost expected = facts_bounded(cx, self.deep_view(), 0);
        let mut i: usize = 0;
        while i < input.facts.len()
            invariant
                i <= input.facts.len(),
                cx == input.context(),
                cx.facts.len() == input.facts@.len(),
                expected == facts_bounded(cx, old(self).deep_view(), 0),
                expected == facts_bounded(cx, self.deep_view(), i as int),
            decreases input.facts.len() - i,
        {
            let f = &input.facts[i];
            assert(cx.facts[i as int] == f.deep_view());
            if let CallableFact::Boundary(row) = &f.fact {
                let member = row.provenance.member_alias.as_str();
                let selected = same_text(member, input.pair.provider_member.as_str()) || same_text(
                    member,
                    input.pair.consumer_member.as_str(),
                );
                if let Some(subject) = &row.subject {
                    if selected && same_text(member, input.request.member_alias.as_str())
                        && contains_key(&self.visited, subject.as_str()) {
                        self.add_boundary(
                            input,
                            row.code.as_str(),
                            subject.as_str(),
                            row.required_checks.copied(),
                            only(f),
                        )?;
                    }
                }
            }
            i = i + 1;
        }
        Ok(())
    }

    fn build_region(
        &mut self,
        input: &FlowInput,
        catalog: &LocalCfgCatalog,
        regions: &mut Vec<FlowControlRegion>,
        symbol: &str,
    ) -> (r: Result<(), ClewError>)
        ensures
            match region_step(
                input.context(),
                catalog@,
                old(self).deep_view(),
                old(regions).deep_view(),
                symbol@,
            ) {
                Ok((st, after)) => r is Ok && final(self).deep_view() == st
                    && final(regions).deep_view() == after,
                Err(e) => r is Err && r->Err_0.deep_view() == e,
            },
    {
        let member = input.request.member_alias.as_str();
        if let Some(owner) = node_for_symbol(&self.nodes, member, symbol) {
            match catalog.get(member, symbol) {
                Some(graph) => {
                    let material = Json::object().with(
                        "ownerNodeId",
                        Json::Str(owner.clone()),
                    ).with("graphId", Json::Str(graph.payload.graph_id.clone())).with(
                        "support",
                        graph.support.to_json(),
                    );
                    let region = FlowControlRegion {
                        region_id: make_id("flow-cfg-region", &material),
                        owner_node_id: owner,
                        graph: graph.payload.copied(),
                        support: graph.support.copied(),
                    };
                    let ghost before = regions.deep_view();
                    let ghost added = region.deep_view();
                    regions.push(region);
                    assert(regions.deep_view() =~= before.push(added));
                },
                None => {
                    let nothing: Vec<FlowSupportRef> = Vec::new();
                    assert(nothing.deep_view() =~= Seq::empty());
                    self.add_boundary(
                        input,
                        "VERIFY_CONTROL_FLOW_ORDER",
                        symbol,
                        one("VERIFY_CONTROL_FLOW_ORDER"),
                        nothing,
                    )?;
                },
            }
        }
        Ok(())
    }

    fn build_regions(&mut self, input: &FlowInput, catalog: &LocalCfgCatalog) -> (r: Result<
        Vec<FlowControlRegion>,
        ClewError,
    >)
        ensures
            match regions_built(
                input.context(),
                catalog@,
                old(self).deep_view(),
                Seq::empty(),
                old(self).deep_view().visited,
                0,
            ) {
                Ok((st, regions)) => r is Ok && final(self).deep_view() == st
                    && r->Ok_0.deep_view() == regions,
                Err(e) => r is Err && r->Err_0.deep_view() == e,
            },
    {
        let ghost cx = input.context();
        let mut regions: Vec<FlowControlRegion> = Vec::new();
        assert(regions.deep_view() =~= Seq::empty());
        let symbols = self.visited.copied();
        let ghost m = self.deep_view().visited;
        let ghost expected = regions_built(cx, catalog@, self.deep_view(), Seq::empty(), m, 0);
        let mut i: usize = 0;
        while i < symbols.len()
            invariant
                i <= symbols.len(),
                cx == input.context(),
                m == symbols.deep_view(),
                m == old(self).deep_view().visited,
                expected == regions_built(
                    cx,
                    catalog@,
                    old(self).deep_view(),
                    Seq::empty(),
                    m,
                    0,
                ),
                expected == regions_built(
                    cx,
                    catalog@,
                    self.deep_view(),
                    regions.deep_view(),
                    m,
                    i as int,
                ),
            decreases symbols.len() - i,
        {
            assert(m[i as int] == symbols@[i as int].deep_view());
            self.build_region(input, catalog, &mut regions, symbols[i].as_str())?;
            i = i + 1;
        }
        Ok(regions)
    }

    /// Builds a slice to its end.
    fn complete(&mut self, input: &FlowInput) -> (r: Result<Vec<FlowControlRegion>, ClewError>)
        requires
            input.request.budgets.max_depth <= MAX_FLOW_DEPTH,
            on_track(input.context(), old(self).deep_view()),
            old(self).deep_view().queue.len() == old(self).deep_view().visited.len(),
        ensures
            match completed(input.context(), old(self).deep_view()) {
                Ok((st, regions)) => r is Ok && final(self).deep_view() == st
                    && r->Ok_0.deep_view() == regions,
                Err(e) => r is Err && r->Err_0.deep_view() == e,
            },
    {
        self.traverse(input)?;
        self.anchor_nodes(input)?;
        self.anchor_edges(input)?;
        self.bound_facts(input)?;
        match input.cfg {
            None => {
                let regions: Vec<FlowControlRegion> = Vec::new();
                assert(regions.deep_view() =~= Seq::empty());
                Ok(sort(&regions))
            },
            Some(catalog) => {
                let regions = self.build_regions(input, catalog)?;
                Ok(sort(&regions))
            },
        }
    }
}

/// The outcome for a request: it has the frozen budgets and a full symbol as
/// root, is bound to the fact set, and names a member of a pair of it.
pub open spec fn request_checked(
    request: FlowRequestModel,
    set: PreparedCallableFactSetModel,
) -> Result<CallablePairBindingModel, ErrorModel> {
    match budgets_checked(request.budgets) {
        Err(e) => Err(e),
        Ok(_) => match full_symbol_checked(request.root) {
            Err(e) => Err(e),
            Ok(_) => if request.thread_id != set.authority.thread_id
                || request.thread_authority_digest != set.authority.thread_authority_digest
                || request.fact_set_authority_digest != set.authority.authority_digest
                || request.fact_set_id != set.fact_set_id {
                refused("flow request is not bound to its callable fact set"@)
            } else {
                match record_at::<CallablePairBinding>(set.authority.pairs, request.pair_id) {
                    None => refused("flow request names an unknown selected pair"@),
                    Some(pair) => if request.member_alias != pair.provider_member
                        && request.member_alias != pair.consumer_member {
                        refused("flow root member is outside the selected pair"@)
                    } else {
                        Ok(pair)
                    },
                }
            },
        },
    }
}

fn validate_request<'a>(request: &FlowRequest, set: &'a PreparedCallableFactSet) -> (r: Result<
    &'a CallablePairBinding,
    ClewError,
>)
    ensures
        outcome(r) == request_checked(request.deep_view(), set.deep_view()),
{
    request.budgets.validate()?;
    validate_kotlin_full_symbol_identity(request.root.as_str())?;
    if !request.thread_id.same_as(&set.authority.thread_id)
        || !request.thread_authority_digest.same_as(&set.authority.thread_authority_digest)
        || !request.fact_set_authority_digest.same_as(&set.authority.authority_digest)
        || !request.fact_set_id.same_as(&set.fact_set_id) {
        return Err(invalid("flow request is not bound to its callable fact set"));
    }
    match find_record(&set.authority.pairs, request.pair_id.as_str()) {
        None => Err(invalid("flow request names an unknown selected pair")),
        Some(pair) => {
            if !request.member_alias.same_as(&pair.provider_member)
                && !request.member_alias.same_as(&pair.consumer_member) {
                return Err(invalid("flow root member is outside the selected pair"));
            }
            Ok(pair)
        },
    }
}

/// The context of a request.
pub open spec fn context_of(
    request: FlowRequestModel,
    set: PreparedCallableFactSetModel,
    pair: CallablePairBindingModel,
    facts: Seq<IndexedFactModel>,
    cfg: Option<Map<(Seq<char>, Seq<char>), PreparedLocalCfgModel>>,
) -> FlowContext {
    FlowContext {
        request,
        pair,
        pairs: set.authority.pairs,
        members: last_table::<CallableMemberBinding>(set.authority.members),
        facts,
        cfg,
    }
}

/// The state at the root: the one declaration of the root is the first node, and
/// is to be followed.
pub open spec fn started(cx: FlowContext) -> Result<FlowStateModel, ErrorModel> {
    let roots = declarations_of(cx.facts, cx.request.member_alias, cx.request.root);
    if roots.len() == 0 {
        refused("exact flow root declaration was not found"@)
    } else if roots.len() != 1 {
        refused("exact flow root declaration is ambiguous"@)
    } else {
        match node_of(cx, roots[0], 0) {
            Err(e) => Err(e),
            Ok(node) => Ok(
                FlowStateModel {
                    nodes: seq![node],
                    edges: Seq::empty(),
                    boundaries: Seq::empty(),
                    obligations: Seq::empty(),
                    truncated: false,
                    visited: seq![cx.request.root],
                    queue: seq![FlowStepModel { symbol: cx.request.root, depth: 0 }],
                },
            ),
        }
    }
}

fn start(input: &FlowInput) -> (r: Result<FlowState, ClewError>)
    ensures
        outcome(r) == started(input.context()),
        r is Ok ==> on_track(input.context(), r->Ok_0.deep_view()),
{
    let ghost cx = input.context();
    let roots = find_declarations(
        &input.facts,
        input.request.member_alias.as_str(),
        input.request.root.as_str(),
    );
    if roots.len() == 0 {
        return Err(invalid("exact flow root declaration was not found"));
    }
    if roots.len() != 1 {
        return Err(invalid("exact flow root declaration is ambiguous"));
    }
    let root = &input.facts[roots[0]];
    assert(root.deep_view() == cx.facts[roots@[0] as int]);
    let node = callable_node(input, root, 0)?;
    let ghost n = node.deep_view();
    let state = FlowState {
        nodes: vec![node],
        edges: Vec::new(),
        boundaries: Vec::new(),
        obligations: Vec::new(),
        truncated: false,
        visited: vec![input.request.root.clone()],
        queue: vec![FlowStep { symbol: input.request.root.clone(), depth: 0 }],
    };
    proof {
        let m = state.deep_view();
        assert(m.nodes =~= seq![n]);
        assert(m.edges =~= Seq::empty());
        assert(m.boundaries =~= Seq::empty());
        assert(m.obligations =~= Seq::empty());
        assert(m.visited =~= seq![cx.request.root]);
        assert(m.queue =~= seq![FlowStepModel { symbol: cx.request.root, depth: 0 }]);
    }
    Ok(state)
}

/// How certain a slice is: only where nothing was cut off, nothing is a boundary
/// and the facts are certain is it verified.
pub open spec fn certainty_of(
    set: PreparedCallableFactSetModel,
    st: FlowStateModel,
) -> FlowCertainty {
    if st.truncated || st.boundaries.len() > 0 || set.authority.completeness.certainty
        == CallableFactSetCertainty::Unsure {
        FlowCertainty::Unsure
    } else {
        FlowCertainty::Verified
    }
}

pub open spec fn status_of(st: FlowStateModel) -> FlowStatus {
    if st.truncated {
        FlowStatus::Truncated
    } else {
        FlowStatus::Complete
    }
}

/// Whether every edge has the compiler's order.
pub open spec fn all_compiler_ordered(edges: Seq<FlowEdgeModel>) -> bool {
    forall|i: int|
        0 <= i < edges.len() ==> (#[trigger] edges[i]).order_authority
            == FlowOrderAuthority::CompilerCfg
}

/// What the order of a slice rests on.
pub open spec fn slice_order(
    cx: FlowContext,
    st: FlowStateModel,
    regions: Seq<FlowControlRegionModel>,
) -> FlowOrderAuthority {
    match cx.cfg {
        None => FlowOrderAuthority::UnorderedStaticRelation,
        Some(_) => if regions.len() > 0 && all_compiler_ordered(st.edges) {
            FlowOrderAuthority::CompilerCfg
        } else {
            FlowOrderAuthority::Unknown
        },
    }
}

/// The identity of a slice: the digest of all its parts.
pub open spec fn flow_identity(
    request: FlowRequestModel,
    set: PreparedCallableFactSetModel,
    root_node_id: Seq<char>,
    st: FlowStateModel,
    regions: Seq<FlowControlRegionModel>,
) -> Seq<char> {
    "thread-flow:"@ + json_digest(
        JsonModel::object().with("schema"@, JsonModel::Str(FLOW_SLICE_SCHEMA@)).with(
            "request"@,
            <FlowRequest as Record>::json(request),
        ).with("rootNodeId"@, JsonModel::Str(root_node_id)).with(
            "nodes"@,
            <Vec<FlowNode> as Record>::json(st.nodes),
        ).with("edges"@, <Vec<FlowEdge> as Record>::json(st.edges)).with(
            "boundaries"@,
            <Vec<FlowBoundary> as Record>::json(st.boundaries),
        ).with(
            "controlFlowRegions"@,
            <Vec<FlowControlRegion> as Record>::json(regions),
        ).with("status"@, <FlowStatus as Record>::json(status_of(st))).with(
            "certainty"@,
            <FlowCertainty as Record>::json(certainty_of(set, st)),
        ).with(
            "verificationObligations"@,
            <Vec<String> as Record>::json(st.obligations),
        ).with(
            "parentFactShards"@,
            <Vec<CasObject> as Record>::json(set.authority.fact_shards),
        ),
    )
}

/// The numbers of the parts.
pub open spec fn counts_of(
    st: FlowStateModel,
    regions: Seq<FlowControlRegionModel>,
) -> FlowCountsModel {
    FlowCountsModel {
        nodes: st.nodes.len() as usize,
        edges: st.edges.len() as usize,
        boundaries: st.boundaries.len() as usize,
        control_flow_regions: regions.len() as usize,
    }
}

/// The slice of a state.
pub open spec fn slice_of(
    request: FlowRequestModel,
    set: PreparedCallableFactSetModel,
    root_node_id: Seq<char>,
    st: FlowStateModel,
    regions: Seq<FlowControlRegionModel>,
) -> FlowSliceModel {
    FlowSliceModel {
        schema: FLOW_SLICE_SCHEMA@,
        flow_id: flow_identity(request, set, root_node_id, st, regions),
        request,
        root_node_id,
        nodes: st.nodes,
        edges: st.edges,
        boundaries: st.boundaries,
        control_flow_regions: regions,
        counts: counts_of(st, regions),
        status: status_of(st),
        certainty: certainty_of(set, st),
        verification_obligations: st.obligations,
        parent_fact_shards: set.authority.fact_shards,
    }
}

/// What is shown of a slice.
pub open spec fn projection_of(
    slice: FlowSliceModel,
    order: FlowOrderAuthority,
) -> FlowSliceProjectionModel {
    FlowSliceProjectionModel {
        schema: FLOW_SLICE_PROJECTION_SCHEMA@,
        flow_id: slice.flow_id,
        root: slice.request.root,
        member_alias: slice.request.member_alias,
        root_node_id: slice.root_node_id,
        counts: slice.counts,
        status: slice.status,
        certainty: slice.certainty,
        order_authority: order,
        verification_obligations: slice.verification_obligations,
    }
}

/// A slice with its bytes, where they fit into the budget.
pub open spec fn slice_prepared(slice: FlowSliceModel, order: FlowOrderAuthority) -> Result<
    PreparedFlowSliceModel,
    ErrorModel,
> {
    let bytes = canonical_bytes(<FlowSlice as Record>::json(slice));
    if bytes.len() > slice.request.budgets.max_slice_bytes {
        exceeded("flow slice exceeds retained 64 MiB bound"@)
    } else {
        Ok(
            PreparedFlowSliceModel {
                slice,
                slice_bytes: bytes,
                slice_ref: reference_to(FLOW_SLICE_SCHEMA@, bytes),
                projection: projection_of(slice, order),
            },
        )
    }
}

/// The slice that a request has on a fact set, without or with graphs.
pub open spec fn flow_built(
    request: FlowRequestModel,
    set: PreparedCallableFactSetModel,
    cfg: Option<Map<(Seq<char>, Seq<char>), PreparedLocalCfgModel>>,
) -> Result<PreparedFlowSliceModel, ErrorModel> {
    match request_checked(request, set) {
        Err(e) => Err(e),
        Ok(pair) => match facts_read(set) {
            Err(e) => Err(e),
            Ok(facts) => {
                let cx = context_of(request, set, pair, facts, cfg);
                match started(cx) {
                    Err(e) => Err(e),
                    Ok(st) => match completed(cx, st) {
                        Err(e) => Err(e),
                        Ok((done, regions)) => slice_prepared(
                            slice_of(request, set, st.nodes[0].node_id, done, regions),
                            slice_order(cx, done, regions),
                        ),
                    },
                }
            },
        },
    }
}

fn compiler_ordered(edges: &Vec<FlowEdge>) -> (r: bool)
    ensures
        r == all_compiler_ordered(edges.deep_view()),
{
    let ghost m = edges.deep_view();
    let mut i: usize = 0;
    while i < edges.len()
        invariant
            i <= edges.len(),
            m == edges.deep_view(),
            forall|k: int|
                0 <= k < i ==> (#[trigger] m[k]).order_authority == FlowOrderAuthority::CompilerCfg,
        decreases edges.len() - i,
    {
        assert(m[i as int] == edges@[i as int].deep_view());
        if edges[i].order_authority != FlowOrderAuthority::CompilerCfg {
            return false;
        }
        i = i + 1;
    }
    true
}

/// The slice of a state, with its bytes.
fn prepare(
    input: &FlowInput,
    set: &PreparedCallableFactSet,
    root_node_id: String,
    st: FlowState,
    regions: Vec<FlowControlRegion>,
) -> (r: Result<PreparedFlowSlice, ClewError>)
    ensures
        outcome(r) == slice_prepared(
            slice_of(
                input.context().request,
                set.deep_view(),
                root_node_id@,
                st.deep_view(),
                regions.deep_view(),
            ),
            slice_order(input.context(), st.deep_view(), regions.deep_view()),
        ),
{
    let certainty = if st.truncated || st.boundaries.len() > 0
        || set.authority.completeness.certainty == CallableFactSetCertainty::Unsure {
        FlowCertainty::Unsure
    } else {
        FlowCertainty::Verified
    };
    let status = if st.truncated {
        FlowStatus::Truncated
    } else {
        FlowStatus::Complete
    };
    let order_authority = match input.cfg {
        None => FlowOrderAuthority::UnorderedStaticRelation,
        Some(_) => if regions.len() > 0 && compiler_ordered(&st.edges) {
            FlowOrderAuthority::CompilerCfg
        } else {
            FlowOrderAuthority::Unknown
        },
    };
    let counts = FlowCounts {
        nodes: st.nodes.len(),
        edges: st.edges.len(),
        boundaries: st.boundaries.len(),
        control_flow_regions: regions.len(),
    };
    let identity = Json::object().with("schema", Json::Str(FLOW_SLICE_SCHEMA.to_owned())).with(
        "request",
        input.request.to_json(),
    ).with("rootNodeId", Json::Str(root_node_id.clone())).with("nodes", st.nodes.to_json()).with(
        "edges",
        st.edges.to_json(),
    ).with("boundaries", st.boundaries.to_json()).with(
        "controlFlowRegions",
        regions.to_json(),
    ).with("status", status.to_json()).with("certainty", certainty.to_json()).with(
        "verificationObligations",
        st.obligations.to_json(),
    ).with("parentFactShards", set.authority.fact_shards.to_json());
    let flow_id = joined("thread-flow:", hash(&identity).as_str());
    let projection = FlowSliceProjection {
        schema: FLOW_SLICE_PROJECTION_SCHEMA.to_owned(),
        flow_id: flow_id.clone(),
        root: input.request.root.clone(),
        member_alias: input.request.member_alias.clone(),
        root_node_id: root_node_id.clone(),
        counts: counts.copied(),
        status,
        certainty,
        order_authority,
        verification_obligations: st.obligations.copied(),
    };
    let slice = FlowSlice {
        schema: FLOW_SLICE_SCHEMA.to_owned(),
        flow_id,
        request: input.request.copied(),
        root_node_id,
        nodes: st.nodes,
        edges: st.edges,
        boundaries: st.boundaries,
        control_flow_regions: regions,
        counts,
        status,
        certainty,
        verification_obligations: st.obligations,
        parent_fact_shards: set.authority.fact_shards.copied(),
    };
    let slice_bytes = slice.to_json().bytes();
    if slice_bytes.len() > input.request.budgets.max_slice_bytes {
        return Err(budget("flow slice exceeds retained 64 MiB bound"));
    }
    let slice_ref = CasObject::for_bytes(FLOW_SLICE_SCHEMA, slice_bytes.as_slice());
    Ok(PreparedFlowSlice { slice, slice_bytes, slice_ref, projection })
}

fn build_internal(
    request: &FlowRequest,
    fact_set: &PreparedCallableFactSet,
    cfg: Option<&LocalCfgCatalog>,
) -> (r: Result<PreparedFlowSlice, ClewError>)
    ensures
        outcome(r) == flow_built(
            request.deep_view(),
            fact_set.deep_view(),
            match cfg {
                Some(catalog) => Some(catalog@),
                None => None,
            },
        ),
{
    let pair = validate_request(request, fact_set)?;
    let facts = read_facts(fact_set)?;
    let members = latest_table_of(&fact_set.authority.members);
    let input = FlowInput { request, pair, pairs: &fact_set.authority.pairs, members, facts, cfg };
    assert(input.context() == context_of(
        request.deep_view(),
        fact_set.deep_view(),
        pair.deep_view(),
        facts.deep_view(),
        match cfg {
            Some(catalog) => Some(catalog@),
            None => None,
        },
    ));
    let mut state = start(&input)?;
    assert(state.deep_view().nodes[0] == state.nodes@[0].deep_view());
    let root_node_id = state.nodes[0].node_id.clone();
    let regions = state.complete(&input)?;
    prepare(&input, fact_set, root_node_id, state, regions)
}

/// Builds the slice of a request on a fact set.
pub fn build(request: FlowRequest, fact_set: &PreparedCallableFactSet) -> (r: Result<
    PreparedFlowSlice,
    ClewError,
>)
    ensures
        outcome(r) == flow_built(request.deep_view(), fact_set.deep_view(), None),
{
    build_internal(&request, fact_set, None)
}

/// Builds the slice of a request on a fact set, with the graphs of a catalog.
pub fn build_with_cfg(
    request: FlowRequest,
    fact_set: &PreparedCallableFactSet,
    cfg: &LocalCfgCatalog,
) -> (r: Result<PreparedFlowSlice, ClewError>)
    ensures
        outcome(r) == flow_built(request.deep_view(), fact_set.deep_view(), Some(cfg@)),
{
    build_internal(&request, fact_set, Some(cfg))
}

impl PreparedFlowSlice {
    /// Whether two slices and all that belongs to them are the same.
    pub fn same_as(&self, other: &PreparedFlowSlice) -> (r: bool)
        ensures
            r == (self.deep_view() == other.deep_view()),
    {
        self.slice.same_as(&other.slice) && same_bytes(
            self.slice_bytes.as_slice(),
            other.slice_bytes.as_slice(),
        ) && self.slice_ref.same_as(&other.slice_ref) && self.projection.same_as(&other.projection)
    }
}

/// Whether the bytes of a slice are its own, and the reference to them right.
pub open spec fn is_sealed(p: PreparedFlowSliceModel) -> bool {
    canonical_bytes(<FlowSlice as Record>::json(p.slice)) == p.slice_bytes && reference_to(
        FLOW_SLICE_SCHEMA@,
        p.slice_bytes,
    ) == p.slice_ref
}

/// Whether a slice fits to itself and to a fact set.
pub open spec fn is_consistent(
    p: PreparedFlowSliceModel,
    set: PreparedCallableFactSetModel,
) -> bool {
    &&& is_sealed(p)
    &&& p.projection.flow_id == p.slice.flow_id
    &&& p.slice.request.fact_set_authority_digest == set.authority.authority_digest
    &&& p.slice.counts.nodes == p.slice.nodes.len()
    &&& p.slice.counts.edges == p.slice.edges.len()
    &&& p.slice.counts.boundaries == p.slice.boundaries.len()
    &&& p.slice.counts.control_flow_regions == p.slice.control_flow_regions.len()
}

/// The outcome for a slice: it is consistent and is what its request has on the
/// facts.
pub open spec fn prepared_verified(
    p: PreparedFlowSliceModel,
    set: PreparedCallableFactSetModel,
) -> Result<(), ErrorModel> {
    if !is_consistent(p, set) {
        corrupted("prepared flow slice is internally inconsistent"@)
    } else {
        match flow_built(p.slice.request, set, None) {
            Err(e) => Err(e),
            Ok(rebuilt) => if rebuilt != p {
                corrupted("prepared flow slice differs from deterministic retained facts"@)
            } else {
                Ok(())
            },
        }
    }
}

/// The outcome for a slice with graphs.
pub open spec fn prepared_verified_with_cfg(
    p: PreparedFlowSliceModel,
    set: PreparedCallableFactSetModel,
    cfg: Map<(Seq<char>, Seq<char>), PreparedLocalCfgModel>,
) -> Result<(), ErrorModel> {
    if !is_sealed(p) {
        corrupted("prepared CFG flow slice is internally inconsistent"@)
    } else {
        match flow_built(p.slice.request, set, Some(cfg)) {
            Err(e) => Err(e),
            Ok(rebuilt) => if rebuilt != p {
                corrupted("prepared CFG flow slice differs from deterministic retained facts"@)
            } else {
                Ok(())
            },
        }
    }
}

fn check_sealed(prepared: &PreparedFlowSlice) -> (r: bool)
    ensures
        r == is_sealed(prepared.deep_view()),
{
    same_bytes(
        prepared.slice.to_json().bytes().as_slice(),
        prepared.slice_bytes.as_slice(),
    ) && CasObject::for_bytes(FLOW_SLICE_SCHEMA, prepared.slice_bytes.as_slice()).same_as(
        &prepared.slice_ref,
    )
}

/// Verifies that a slice is what its request has on the facts.
pub fn verify_prepared(prepared: &PreparedFlowSlice, fact_set: &PreparedCallableFactSet) -> (r: Result<
    (),
    ClewError,
>)
    ensures
        outcome(r) == prepared_verified(prepared.deep_view(), fact_set.deep_view()),
{
    if !check_sealed(prepared) || !prepared.projection.flow_id.same_as(&prepared.slice.flow_id)
        || !prepared.slice.request.fact_set_authority_digest.same_as(
        &fact_set.authority.authority_digest,
    ) || prepared.slice.counts.nodes != prepared.slice.nodes.len() || prepared.slice.counts.edges
        != prepared.slice.edges.len() || prepared.slice.counts.boundaries
        != prepared.slice.boundaries.len() || prepared.slice.counts.control_flow_regions
        != prepared.slice.control_flow_regions.len() {
        return Err(corrupt("prepared flow slice is internally inconsistent"));
    }
    let rebuilt = build_internal(&prepared.slice.request, fact_set, None)?;
    if !rebuilt.same_as(prepared) {
        return Err(corrupt("prepared flow slice differs from deterministic retained facts"));
    }
    Ok(())
}

/// Verifies that a slice is what its request has on the facts and the graphs.
pub fn verify_prepared_with_cfg(
    prepared: &PreparedFlowSlice,
    fact_set: &PreparedCallableFactSet,
    cfg: &LocalCfgCatalog,
) -> (r: Result<(), ClewError>)
    ensures
        outcome(r) == prepared_verified_with_cfg(
            prepared.deep_view(),
            fact_set.deep_view(),
            cfg@,
        ),
{
    if !check_sealed(prepared) {
        return Err(corrupt("prepared CFG flow slice is internally inconsistent"));
    }
    let rebuilt = build_internal(&prepared.slice.request, fact_set, Some(cfg))?;
    if !rebuilt.same_as(prepared) {
        return Err(
            corrupt("prepared CFG flow slice differs from deterministic retained facts"),
        );
    }
    Ok(())
}

/// Whether a state keeps to the budgets, has its nodes, edges and boundaries in
/// order, each once, and leads every edge from a node to a node.
pub open spec fn is_sound(cx: FlowContext, st: FlowStateModel) -> bool {
    &&& is_table::<FlowNode>(st.nodes)
    &&& is_table::<FlowEdge>(st.edges)
    &&& is_table::<FlowBoundary>(st.boundaries)
    &&& st.nodes.len() <= cx.request.budgets.max_nodes
    &&& st.edges.len() <= cx.request.budgets.max_edges
    &&& st.boundaries.len() <= cx.request.budgets.max_boundaries
    &&& edges_connected(st.nodes, st.edges)
}

/// Whether every edge leads from a node to a node.
pub open spec fn edges_connected(nodes: Seq<FlowNodeModel>, edges: Seq<FlowEdgeModel>) -> bool {
    forall|i: int|
        0 <= i < edges.len() ==> has_key::<FlowNode>(nodes, (#[trigger] edges[i]).source_node_id)
            && has_key::<FlowNode>(nodes, edges[i].target_node_id)
}

proof fn boundary_keeps_sound(
    cx: FlowContext,
    st: FlowStateModel,
    code: Seq<char>,
    subject: Seq<char>,
    checks: Seq<Seq<char>>,
    support: Seq<FlowSupportRefModel>,
)
    requires
        is_sound(cx, st),
    ensures
        match with_boundary(cx, st, code, subject, checks, support) {
            Ok(after) => is_sound(cx, after) && after.nodes == st.nodes && after.edges == st.edges,
            Err(_) => true,
        },
{
    let id = boundary_id(cx.request.member_alias, code, subject, support);
    let b = FlowBoundaryModel {
        boundary_id: id,
        code,
        subject,
        required_checks: first_table::<String>(checks),
        support_refs: support,
    };
    entered_keeps_table::<FlowBoundary>(st.boundaries, b);
}

/// Entering a node that fits into the budget keeps a state sound.
proof fn node_keeps_sound(cx: FlowContext, st: FlowStateModel, node: FlowNodeModel)
    requires
        is_sound(cx, st),
        has_key::<FlowNode>(st.nodes, node.node_id) || st.nodes.len()
            < cx.request.budgets.max_nodes,
    ensures
        is_sound(cx, FlowStateModel { nodes: entered::<FlowNode>(st.nodes, node), ..st }),
        has_key::<FlowNode>(entered::<FlowNode>(st.nodes, node), node.node_id),
{
    entered_keeps_table::<FlowNode>(st.nodes, node);
    let nodes = entered::<FlowNode>(st.nodes, node);
    assert forall|i: int| 0 <= i < st.edges.len() implies has_key::<FlowNode>(
        nodes,
        (#[trigger] st.edges[i]).source_node_id,
    ) && has_key::<FlowNode>(nodes, st.edges[i].target_node_id) by {
        entered_keeps_keys::<FlowNode>(st.nodes, node, st.edges[i].source_node_id);
        entered_keeps_keys::<FlowNode>(st.nodes, node, st.edges[i].target_node_id);
    }
}

/// Entering an edge between nodes that fits into the budget keeps a state sound.
proof fn edge_keeps_sound(cx: FlowContext, st: FlowStateModel, edge: FlowEdgeModel)
    requires
        is_sound(cx, st),
        st.edges.len() < cx.request.budgets.max_edges,
        has_key::<FlowNode>(st.nodes, edge.source_node_id),
        has_key::<FlowNode>(st.nodes, edge.target_node_id),
    ensures
        is_sound(cx, FlowStateModel { edges: entered::<FlowEdge>(st.edges, edge), ..st }),
{
    entered_keeps_table::<FlowEdge>(st.edges, edge);
    let edges = entered::<FlowEdge>(st.edges, edge);
    assert forall|i: int| 0 <= i < edges.len() implies has_key::<FlowNode>(
        st.nodes,
        (#[trigger] edges[i]).source_node_id,
    ) && has_key::<FlowNode>(st.nodes, edges[i].target_node_id) by {
        if edges[i] != edge {
            assert(st.edges.contains(edges[i]));
            let k = choose|k: int| 0 <= k < st.edges.len() && st.edges[k] == edges[i];
            assert(has_key::<FlowNode>(st.nodes, st.edges[k].source_node_id));
        }
    }
}

proof fn handoff_keeps_sound(
    cx: FlowContext,
    st: FlowStateModel,
    source: FlowSource,
    f: IndexedFactModel,
    row: UseFactModel,
)
    requires
        is_sound(cx, st),
        has_key::<FlowNode>(st.nodes, source.node_id),
    ensures
        match handoff_step(cx, st, source, f, row) {
            Ok(after) => is_sound(cx, after) && has_key::<FlowNode>(after.nodes, source.node_id),
            Err(_) => true,
        },
{
    let support = seq![support_of(f)];
    if !is_sole_declared_pair(cx) {
        boundary_keeps_sound(
            cx,
            st,
            "AMBIGUOUS_DECLARED_TOPOLOGY_HANDOFF"@,
            row.target_callable_id,
            seq!["DISAMBIGUATE_DECLARED_COMPONENT_PAIR"@],
            support,
        );
    } else if cx.request.member_alias != cx.pair.consumer_member {
        boundary_keeps_sound(
            cx,
            st,
            "DECLARED_TOPOLOGY_DIRECTION_MISMATCH"@,
            row.target_callable_id,
            seq!["VERIFY_DECLARED_CONSUMER_PROVIDER_DIRECTION"@],
            support,
        );
    } else {
        let target = record_at::<CallableMemberBinding>(cx.members, cx.pair.provider_member);
        let source_member = record_at::<CallableMemberBinding>(cx.members, cx.request.member_alias);
        if target is Some && source_member is Some {
            let node = handoff_node(
                target.unwrap(),
                row.target_callable_id,
                (source.depth + 1) as usize,
            );
            if !has_key::<FlowNode>(st.nodes, node.node_id) && st.nodes.len()
                >= cx.request.budgets.max_nodes {
                boundary_keeps_sound(
                    cx,
                    cut(st),
                    "FLOW_NODE_BUDGET_TRUNCATED"@,
                    row.target_callable_id,
                    seq!["SELECT_NARROWER_ROOT"@],
                    support,
                );
            } else {
                let st2 = FlowStateModel { nodes: entered::<FlowNode>(st.nodes, node), ..st };
                node_keeps_sound(cx, st, node);
                entered_keeps_keys::<FlowNode>(st.nodes, node, source.node_id);
                if st2.edges.len() >= cx.request.budgets.max_edges {
                    boundary_keeps_sound(
                        cx,
                        cut(st2),
                        "FLOW_EDGE_BUDGET_TRUNCATED"@,
                        source.symbol,
                        seq!["SELECT_NARROWER_ROOT"@],
                        support,
                    );
                } else {
                    let edge = edge_of(
                        source,
                        source_member.unwrap(),
                        node.node_id,
                        target.unwrap(),
                        f,
                        row,
                        handoff_edge_id(source.node_id, node.node_id, row.fact_id),
                        (FlowOrderAuthority::Unknown, None, Seq::empty()),
                    );
                    edge_keeps_sound(cx, st2, edge);
                    boundary_keeps_sound(
                        cx,
                        FlowStateModel { edges: entered::<FlowEdge>(st2.edges, edge), ..st2 },
                        "DECLARED_TOPOLOGY_HANDOFF"@,
                        row.target_callable_id,
                        seq!["VERIFY_RUNTIME_COMPONENT_HANDOFF"@],
                        support,
                    );
                }
            }
        }
    }
}

proof fn callable_keeps_sound(
    cx: FlowContext,
    st: FlowStateModel,
    source: FlowSource,
    f: IndexedFactModel,
    row: UseFactModel,
    target_symbol: Seq<char>,
    target: IndexedFactModel,
)
    requires
        is_sound(cx, st),
        has_key::<FlowNode>(st.nodes, source.node_id),
    ensures
        match callable_step(cx, st, source, f, row, target_symbol, target) {
            Ok(after) => is_sound(cx, after) && has_key::<FlowNode>(after.nodes, source.node_id),
            Err(_) => true,
        },
{
    let support = seq![support_of(f)];
    if let Ok(node) = node_of(cx, target, (source.depth + 1) as usize) {
        if !has_key::<FlowNode>(st.nodes, node.node_id) && st.nodes.len()
            >= cx.request.budgets.max_nodes {
            boundary_keeps_sound(
                cx,
                cut(st),
                "FLOW_NODE_BUDGET_TRUNCATED"@,
                target_symbol,
                seq!["SELECT_NARROWER_ROOT"@],
                support,
            );
        } else {
            let st2 = FlowStateModel { nodes: entered::<FlowNode>(st.nodes, node), ..st };
            node_keeps_sound(cx, st, node);
            entered_keeps_keys::<FlowNode>(st.nodes, node, source.node_id);
            if st2.edges.len() >= cx.request.budgets.max_edges {
                boundary_keeps_sound(
                    cx,
                    cut(st2),
                    "FLOW_EDGE_BUDGET_TRUNCATED"@,
                    source.symbol,
                    seq!["SELECT_NARROWER_ROOT"@],
                    support,
                );
            } else {
                boundary_keeps_sound(
                    cx,
                    st2,
                    "VERIFY_CONTROL_FLOW_ORDER"@,
                    source.symbol,
                    seq!["VERIFY_CONTROL_FLOW_ORDER"@],
                    support,
                );
                let ordered = if order_is_open(cx, source, row) {
                    with_boundary(
                        cx,
                        st2,
                        "VERIFY_CONTROL_FLOW_ORDER"@,
                        source.symbol,
                        seq!["VERIFY_CONTROL_FLOW_ORDER"@],
                        support,
                    )
                } else {
                    Ok(st2)
                };
                let member = record_at::<CallableMemberBinding>(
                    cx.members,
                    cx.request.member_alias,
                );
                if ordered is Ok && member is Some {
                    let edge = edge_of(
                        source,
                        member.unwrap(),
                        node.node_id,
                        member.unwrap(),
                        f,
                        row,
                        edge_id_of(source.node_id, node.node_id, row.fact_id),
                        order_of(cx, source, row),
                    );
                    edge_keeps_sound(cx, ordered->Ok_0, edge);
                }
            }
        }
    }
}

pub proof fn use_keeps_sound(
    cx: FlowContext,
    st: FlowStateModel,
    source: FlowSource,
    f: IndexedFactModel,
)
    requires
        is_sound(cx, st),
        has_key::<FlowNode>(st.nodes, source.node_id),
    ensures
        match use_step(cx, st, source, f) {
            Ok(after) => is_sound(cx, after) && has_key::<FlowNode>(after.nodes, source.node_id),
            Err(_) => true,
        },
{
    reveal(use_step);
    if let CallableFactModel::Use(row) = f.fact {
        handoff_keeps_sound(cx, st, source, f, row);
        let support = seq![support_of(f)];
        assert forall|code: Seq<char>, subject: Seq<char>, checks: Seq<Seq<char>>|
            match #[trigger] with_boundary(cx, st, code, subject, checks, support) {
                Ok(after) => is_sound(cx, after) && after.nodes == st.nodes,
                Err(_) => true,
            } by {
            boundary_keeps_sound(cx, st, code, subject, checks, support);
        }
        if let Some(symbol) = exact_target(row) {
            callable_keeps_sound(
                cx,
                st,
                source,
                f,
                row,
                symbol,
                declarations_of(cx.facts, cx.request.member_alias, symbol)[0],
            );
        }
    }
}

proof fn uses_keep_sound(
    cx: FlowContext,
    st: FlowStateModel,
    source: FlowSource,
    uses: Seq<IndexedFactModel>,
    i: int,
)
    requires
        is_sound(cx, st),
        has_key::<FlowNode>(st.nodes, source.node_id),
        0 <= i,
    ensures
        match uses_step(cx, st, source, uses, i) {
            Ok(after) => is_sound(cx, after),
            Err(_) => true,
        },
    decreases uses.len() - i,
{
    if i < uses.len() {
        use_keeps_sound(cx, st, source, uses[i]);
        if let Ok(st2) = use_step(cx, st, source, uses[i]) {
            uses_keep_sound(cx, st2, source, uses, i + 1);
        }
    }
}

proof fn found_node_has_key(nodes: Seq<FlowNodeModel>, member: Seq<char>, symbol: Seq<char>)
    ensures
        match node_for(nodes, member, symbol) {
            Some(id) => has_key::<FlowNode>(nodes, id),
            None => true,
        },
    decreases nodes.len(),
{
    if nodes.len() > 0 {
        if is_node_of(nodes[0], member, symbol) {
            assert(FlowNode::key(nodes[0]) == nodes[0].node_id);
        } else {
            found_node_has_key(nodes.drop_first(), member, symbol);
            if let Some(id) = node_for(nodes.drop_first(), member, symbol) {
                let k = choose|k: int|
                    0 <= k < nodes.drop_first().len() && FlowNode::key(
                        #[trigger] nodes.drop_first()[k],
                    ) == id;
                assert(FlowNode::key(nodes[k + 1]) == id);
            }
        }
    }
}

pub proof fn symbol_keeps_sound(
    cx: FlowContext,
    st: FlowStateModel,
    symbol: Seq<char>,
    depth: usize,
)
    requires
        is_sound(cx, st),
    ensures
        match symbol_step(cx, st, symbol, depth) {
            Ok(after) => is_sound(cx, after),
            Err(_) => true,
        },
{
    let member = cx.request.member_alias;
    found_node_has_key(st.nodes, member, symbol);
    if let Some(node_id) = node_for(st.nodes, member, symbol) {
        let declared = declarations_of(cx.facts, member, symbol);
        boundary_keeps_sound(
            cx,
            st,
            "MISSING_SOURCE_CALLABLE_ID"@,
            symbol,
            seq!["VERIFY_EXACT_SOURCE_CALLABLE_ID"@],
            seq![support_of(declared[0])],
        );
        if let Some(callable_id) = declared[0].fact->Declaration_0.compiler_callable_id {
            boundary_keeps_sound(
                cx,
                st,
                "AMBIGUOUS_SOURCE_OWNER_OVERLOAD"@,
                callable_id,
                seq!["DISAMBIGUATE_RELATION_SOURCE_OVERLOAD"@],
                seq![support_of(declared[0])],
            );
            boundary_keeps_sound(
                cx,
                cut(st),
                "FLOW_DEPTH_TRUNCATED"@,
                symbol,
                seq!["INCREASE_MAX_DEPTH_OR_SELECT_NARROWER_ROOT"@],
                Seq::empty(),
            );
            uses_keep_sound(
                cx,
                st,
                FlowSource { symbol, depth, node_id },
                outgoing_of(cx.facts, member, callable_id),
                0,
            );
        }
    }
}

proof fn traversal_keeps_sound(cx: FlowContext, st: FlowStateModel, n: nat)
    requires
        is_sound(cx, st),
    ensures
        match traversed(cx, st, n) {
            Ok(after) => is_sound(cx, after),
            Err(_) => true,
        },
    decreases n,
{
    if n > 0 && st.queue.len() > 0 {
        let next = st.queue[0];
        let rest = FlowStateModel { queue: st.queue.drop_first(), ..st };
        symbol_keeps_sound(cx, rest, next.symbol, next.depth);
        if let Ok(st2) = symbol_step(cx, rest, next.symbol, next.depth) {
            traversal_keeps_sound(cx, st2, (n - 1) as nat);
        }
    }
}

proof fn supports_keep_sound(
    cx: FlowContext,
    st: FlowStateModel,
    subject: Seq<char>,
    supports: Seq<FlowSupportRefModel>,
    i: int,
)
    requires
        is_sound(cx, st),
        0 <= i,
    ensures
        match supports_anchored(cx, st, subject, supports, i) {
            Ok(after) => is_sound(cx, after) && after.edges == st.edges,
            Err(_) => true,
        },
    decreases supports.len() - i,
{
    if i < supports.len() {
        boundary_keeps_sound(
            cx,
            st,
            "MISSING_SOURCE_ANCHOR"@,
            subject,
            seq!["VERIFY_EXACT_SOURCE_ANCHOR"@],
            seq![supports[i]],
        );
        if supports[i].source is Some {
            supports_keep_sound(cx, st, subject, supports, i + 1);
        } else if let Ok(st2) = with_boundary(
            cx,
            st,
            "MISSING_SOURCE_ANCHOR"@,
            subject,
            seq!["VERIFY_EXACT_SOURCE_ANCHOR"@],
            seq![supports[i]],
        ) {
            supports_keep_sound(cx, st2, subject, supports, i + 1);
        }
    }
}

proof fn anchored_nodes_keep_sound(
    cx: FlowContext,
    st: FlowStateModel,
    nodes: Seq<FlowNodeModel>,
    i: int,
)
    requires
        is_sound(cx, st),
        0 <= i,
    ensures
        match nodes_anchored(cx, st, nodes, i) {
            Ok(after) => is_sound(cx, after),
            Err(_) => true,
        },
    decreases nodes.len() - i,
{
    if i < nodes.len() {
        supports_keep_sound(cx, st, nodes[i].symbol_identity, nodes[i].support_refs, 0);
        if let Ok(st2) = supports_anchored(
            cx,
            st,
            nodes[i].symbol_identity,
            nodes[i].support_refs,
            0,
        ) {
            anchored_nodes_keep_sound(cx, st2, nodes, i + 1);
        }
    }
}

proof fn anchored_edges_keep_sound(
    cx: FlowContext,
    st: FlowStateModel,
    edges: Seq<FlowEdgeModel>,
    i: int,
)
    requires
        is_sound(cx, st),
        0 <= i,
    ensures
        match edges_anchored(cx, st, edges, i) {
            Ok(after) => is_sound(cx, after),
            Err(_) => true,
        },
    decreases edges.len() - i,
{
    if i < edges.len() {
        supports_keep_sound(cx, st, edges[i].source_node_id, edges[i].support_refs, 0);
        if let Ok(st2) = supports_anchored(
            cx,
            st,
            edges[i].source_node_id,
            edges[i].support_refs,
            0,
        ) {
            anchored_edges_keep_sound(cx, st2, edges, i + 1);
        }
    }
}

proof fn bounded_facts_keep_sound(cx: FlowContext, st: FlowStateModel, i: int)
    requires
        is_sound(cx, st),
        0 <= i,
    ensures
        match facts_bounded(cx, st, i) {
            Ok(after) => is_sound(cx, after),
            Err(_) => true,
        },
    decreases cx.facts.len() - i,
{
    if i < cx.facts.len() {
        if !is_relevant_boundary(cx, st, cx.facts[i]) {
            bounded_facts_keep_sound(cx, st, i + 1);
        } else {
            let row = cx.facts[i].fact->Boundary_0;
            let support = seq![support_of(cx.facts[i])];
            boundary_keeps_sound(
                cx,
                st,
                row.code,
                row.subject.unwrap(),
                row.required_checks,
                support,
            );
            if let Ok(st2) = with_boundary(
                cx,
                st,
                row.code,
                row.subject.unwrap(),
                row.required_checks,
                support,
            ) {
                bounded_facts_keep_sound(cx, st2, i + 1);
            }
        }
    }
}

proof fn regions_keep_sound(
    cx: FlowContext,
    catalog: Map<(Seq<char>, Seq<char>), PreparedLocalCfgModel>,
    st: FlowStateModel,
    regions: Seq<FlowControlRegionModel>,
    symbols: Seq<Seq<char>>,
    i: int,
)
    requires
        is_sound(cx, st),
        0 <= i,
    ensures
        match regions_built(cx, catalog, st, regions, symbols, i) {
            Ok((after, _)) => is_sound(cx, after),
            Err(_) => true,
        },
    decreases symbols.len() - i,
{
    if i < symbols.len() {
        boundary_keeps_sound(
            cx,
            st,
            "VERIFY_CONTROL_FLOW_ORDER"@,
            symbols[i],
            seq!["VERIFY_CONTROL_FLOW_ORDER"@],
            Seq::empty(),
        );
        if let Ok((st2, regions2)) = region_step(cx, catalog, st, regions, symbols[i]) {
            regions_keep_sound(cx, catalog, st2, regions2, symbols, i + 1);
        }
    }
}

/// A slice keeps to its budgets, has its nodes, edges and boundaries in the order
/// of their identities, each once, and leads every edge from a node to a node.
pub proof fn built_slice_is_sound(
    request: FlowRequestModel,
    set: PreparedCallableFactSetModel,
    cfg: Option<Map<(Seq<char>, Seq<char>), PreparedLocalCfgModel>>,
    p: PreparedFlowSliceModel,
)
    requires
        flow_built(request, set, cfg) == Ok::<PreparedFlowSliceModel, ErrorModel>(p),
    ensures
        p.slice.request == request,
        p.slice.nodes.len() <= MAX_FLOW_NODES,
        p.slice.edges.len() <= MAX_FLOW_EDGES,
        p.slice.boundaries.len() <= MAX_FLOW_BOUNDARIES,
        p.slice_bytes.len() <= MAX_FLOW_SLICE_BYTES,
        is_table::<FlowNode>(p.slice.nodes),
        is_table::<FlowEdge>(p.slice.edges),
        is_table::<FlowBoundary>(p.slice.boundaries),
        edges_connected(p.slice.nodes, p.slice.edges),
{
    let pair = request_checked(request, set)->Ok_0;
    let facts = facts_read(set)->Ok_0;
    let cx = context_of(request, set, pair, facts, cfg);
    let st = started(cx)->Ok_0;
    assert(is_sound(cx, st));
    traversal_keeps_sound(cx, st, cx.facts.len());
    let st1 = traversed(cx, st, cx.facts.len())->Ok_0;
    anchored_nodes_keep_sound(cx, st1, st1.nodes, 0);
    let st2 = nodes_anchored(cx, st1, st1.nodes, 0)->Ok_0;
    anchored_edges_keep_sound(cx, st2, st2.edges, 0);
    let st3 = edges_anchored(cx, st2, st2.edges, 0)->Ok_0;
    bounded_facts_keep_sound(cx, st3, 0);
    let st4 = facts_bounded(cx, st3, 0)->Ok_0;
    if let Some(catalog) = cfg {
        regions_keep_sound(cx, catalog, st4, Seq::empty(), st4.visited, 0);
    }
}

/// A slice is verified only where nothing was cut off, there is no boundary, and
/// the facts are certain.
pub proof fn verified_slice_has_no_boundary(
    request: FlowRequestModel,
    set: PreparedCallableFactSetModel,
    cfg: Option<Map<(Seq<char>, Seq<char>), PreparedLocalCfgModel>>,
    p: PreparedFlowSliceModel,
)
    requires
        flow_built(request, set, cfg) == Ok::<PreparedFlowSliceModel, ErrorModel>(p),
    ensures
        p.slice.certainty == FlowCertainty::Verified <==> p.slice.boundaries.len() == 0
            && p.slice.status == FlowStatus::Complete && set.authority.completeness.certainty
            != CallableFactSetCertainty::Unsure,
        p.projection.certainty == p.slice.certainty,
        p.projection.status == p.slice.status,
{
}

/// What was built without graphs verifies on the same facts.
pub proof fn built_slice_verifies(
    request: FlowRequestModel,
    set: PreparedCallableFactSetModel,
    p: PreparedFlowSliceModel,
)
    requires
        flow_built(request, set, None) == Ok::<PreparedFlowSliceModel, ErrorModel>(p),
    ensures
        prepared_verified(p, set) is Ok,
{
    built_slice_is_sound(request, set, None, p);
    assert(p.slice.control_flow_regions.len() == 0) by {
        assert(sorted::<FlowControlRegion>(Seq::empty()).len() == 0);
    }
}

/// What was built with graphs verifies on the same facts and graphs.
pub proof fn built_slice_verifies_with_cfg(
    request: FlowRequestModel,
    set: PreparedCallableFactSetModel,
    cfg: Map<(Seq<char>, Seq<char>), PreparedLocalCfgModel>,
    p: PreparedFlowSliceModel,
)
    requires
        flow_built(request, set, Some(cfg)) == Ok::<PreparedFlowSliceModel, ErrorModel>(p),
    ensures
        prepared_verified_with_cfg(p, set, cfg) is Ok,
{
}

/// A slice that verifies is what its own request has on the facts and the graphs: two
/// that verify and have one request are one slice.
pub proof fn verified_slice_is_the_built_one(
    set: PreparedCallableFactSetModel,
    cfg: Option<Map<(Seq<char>, Seq<char>), PreparedLocalCfgModel>>,
    p: PreparedFlowSliceModel,
    other: PreparedFlowSliceModel,
)
    requires
        match cfg {
            Some(cfg) => prepared_verified_with_cfg(p, set, cfg) is Ok
                && prepared_verified_with_cfg(other, set, cfg) is Ok,
            None => prepared_verified(p, set) is Ok && prepared_verified(other, set) is Ok,
        },
    ensures
        flow_built(p.slice.request, set, cfg) == Ok::<PreparedFlowSliceModel, ErrorModel>(p),
        p.slice.request == other.slice.request ==> p == other,
{
}

proof fn queue_runs_empty(cx: FlowContext, st: FlowStateModel, n: nat, after: FlowStateModel)
    requires
        on_track(cx, st),
        st.visited.len() - st.queue.len() + n == cx.facts.len(),
        traversed(cx, st, n) == Ok::<FlowStateModel, ErrorModel>(after),
    ensures
        after.queue.len() == 0,
        on_track(cx, after),
    decreases n,
{
    visited_at_most_facts(cx, st);
    if n > 0 && st.queue.len() > 0 {
        let next = st.queue[0];
        let rest = FlowStateModel { queue: st.queue.drop_first(), ..st };
        let st2 = symbol_step(cx, rest, next.symbol, next.depth)->Ok_0;
        symbol_step_keeps_track(cx, rest, next.symbol, next.depth, st2);
        queue_runs_empty(cx, st2, (n - 1) as nat, after);
    }
}

/// A traversal from the root leaves no callable that it has come to unfollowed: as many
/// steps as there are facts empty its queue. What it has come to is declared by the facts.
pub proof fn traversal_is_exhaustive(cx: FlowContext, st: FlowStateModel, after: FlowStateModel)
    requires
        started(cx) == Ok::<FlowStateModel, ErrorModel>(st),
        traversed(cx, st, cx.facts.len()) == Ok::<FlowStateModel, ErrorModel>(after),
    ensures
        after.queue.len() == 0,
        on_track(cx, after),
{
    assert(st.visited[0] == cx.request.root);
    queue_runs_empty(cx, st, cx.facts.len(), after);
}

} // verus!
