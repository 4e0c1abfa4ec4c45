//! Closed normalization contract for compiler-produced local control-flow graphs.
//!
//! Raw compiler node classes are excluded. A version-specific worker maps them to
//! these stable roles and transition kinds.

use vstd::prelude::*;
use vstd::string::*;

use crate::canonical::{hash, json_digest};
use crate::cas::{CasObject, CasObjectModel};
use crate::error::{
    budget, corrupt, corrupted, exceeded, invalid, outcome, refused, ClewError, ErrorModel,
};
use crate::identity::{full_symbol_checked, validate_kotlin_full_symbol_identity};
use crate::json::{Json, JsonModel};
use crate::order;
use crate::order::{Ordered, Part, PartModel};
use crate::record::Record;
use crate::text::{
    contains_char, is_digest, is_plain, is_relative_path, joined, plain, relative_path, same_text,
    sha256_digest, text_before, text_less,
};

verus! {

pub const LOCAL_CFG_SCHEMA: &'static str = "local-cfg/0.1";

pub const LOCAL_CFG_BOUNDARY_SCHEMA: &'static str = "local-cfg-boundary/0.1";

pub const LOCAL_CFG_PAYLOAD_SCHEMA: &'static str = "codeclew-kotlin-semantic-fact/3.0";

pub const MAX_LOCAL_CFG_NODES: usize = 4_096;

pub const MAX_LOCAL_CFG_EDGES: usize = 8_192;

pub const MAX_CFG_TEXT_BYTES: usize = 512;

pub const MAX_CFG_PATH_BYTES: usize = 4_096;

/// What a node of a local control-flow graph stands for.
#[derive(Clone, Copy, Debug, PartialEq, Eq, Structural)]
pub enum LocalCfgNodeRole {
    Entry,
    Exit,
    Operation,
    Decision,
    Merge,
    Return,
    Throw,
    Catch,
    Finally,
    LoopCondition,
    LoopExit,
    Dead,
}

impl DeepView for LocalCfgNodeRole {
    type V = LocalCfgNodeRole;

    open spec fn deep_view(&self) -> LocalCfgNodeRole {
        *self
    }
}

impl LocalCfgNodeRole {
    /// The name that is written for a value.
    pub open spec fn name(self) -> Seq<char> {
        match self {
            LocalCfgNodeRole::Entry => "ENTRY"@,
            LocalCfgNodeRole::Exit => "EXIT"@,
            LocalCfgNodeRole::Operation => "OPERATION"@,
            LocalCfgNodeRole::Decision => "DECISION"@,
            LocalCfgNodeRole::Merge => "MERGE"@,
            LocalCfgNodeRole::Return => "RETURN"@,
            LocalCfgNodeRole::Throw => "THROW"@,
            LocalCfgNodeRole::Catch => "CATCH"@,
            LocalCfgNodeRole::Finally => "FINALLY"@,
            LocalCfgNodeRole::LoopCondition => "LOOP_CONDITION"@,
            LocalCfgNodeRole::LoopExit => "LOOP_EXIT"@,
            LocalCfgNodeRole::Dead => "DEAD"@,
        }
    }
}

impl Record for LocalCfgNodeRole {
    open spec fn json(v: LocalCfgNodeRole) -> JsonModel {
        JsonModel::Str(v.name())
    }

    fn copied(&self) -> (r: LocalCfgNodeRole) {
        *self
    }

    fn same_as(&self, other: &LocalCfgNodeRole) -> (r: bool) {
        *self == *other
    }

    fn to_json(&self) -> (r: Json) {
        let name = match self {
            LocalCfgNodeRole::Entry => "ENTRY",
            LocalCfgNodeRole::Exit => "EXIT",
            LocalCfgNodeRole::Operation => "OPERATION",
            LocalCfgNodeRole::Decision => "DECISION",
            LocalCfgNodeRole::Merge => "MERGE",
            LocalCfgNodeRole::Return => "RETURN",
            LocalCfgNodeRole::Throw => "THROW",
            LocalCfgNodeRole::Catch => "CATCH",
            LocalCfgNodeRole::Finally => "FINALLY",
            LocalCfgNodeRole::LoopCondition => "LOOP_CONDITION",
            LocalCfgNodeRole::LoopExit => "LOOP_EXIT",
            LocalCfgNodeRole::Dead => "DEAD",
        };
        Json::Str(name.to_owned())
    }
}

/// How control passes along an edge.
#[derive(Clone, Copy, Debug, PartialEq, Eq, Structural)]
pub enum LocalCfgEdgeKind {
    Next,
    True,
    False,
    WhenCase,
    Exception,
    Return,
    LoopBack,
    Break,
    Continue,
    Finally,
    Dead,
}

impl DeepView for LocalCfgEdgeKind {
    type V = LocalCfgEdgeKind;

    open spec fn deep_view(&self) -> LocalCfgEdgeKind {
        *self
    }
}

impl LocalCfgEdgeKind {
    /// The name that is written for a value.
    pub open spec fn name(self) -> Seq<char> {
        match self {
            LocalCfgEdgeKind::Next => "NEXT"@,
            LocalCfgEdgeKind::True => "TRUE"@,
            LocalCfgEdgeKind::False => "FALSE"@,
            LocalCfgEdgeKind::WhenCase => "WHEN_CASE"@,
            LocalCfgEdgeKind::Exception => "EXCEPTION"@,
            LocalCfgEdgeKind::Return => "RETURN"@,
            LocalCfgEdgeKind::LoopBack => "LOOP_BACK"@,
            LocalCfgEdgeKind::Break => "BREAK"@,
            LocalCfgEdgeKind::Continue => "CONTINUE"@,
            LocalCfgEdgeKind::Finally => "FINALLY"@,
            LocalCfgEdgeKind::Dead => "DEAD"@,
        }
    }
}

impl Record for LocalCfgEdgeKind {
    open spec fn json(v: LocalCfgEdgeKind) -> JsonModel {
        JsonModel::Str(v.name())
    }

    fn copied(&self) -> (r: LocalCfgEdgeKind) {
        *self
    }

    fn same_as(&self, other: &LocalCfgEdgeKind) -> (r: bool) {
        *self == *other
    }

    fn to_json(&self) -> (r: Json) {
        let name = match self {
            LocalCfgEdgeKind::Next => "NEXT",
            LocalCfgEdgeKind::True => "TRUE",
            LocalCfgEdgeKind::False => "FALSE",
            LocalCfgEdgeKind::WhenCase => "WHEN_CASE",
            LocalCfgEdgeKind::Exception => "EXCEPTION",
            LocalCfgEdgeKind::Return => "RETURN",
            LocalCfgEdgeKind::LoopBack => "LOOP_BACK",
            LocalCfgEdgeKind::Break => "BREAK",
            LocalCfgEdgeKind::Continue => "CONTINUE",
            LocalCfgEdgeKind::Finally => "FINALLY",
            LocalCfgEdgeKind::Dead => "DEAD",
        };
        Json::Str(name.to_owned())
    }
}

/// A range of source bytes.
#[derive(Debug, PartialEq, Eq)]
pub struct LocalCfgSourceRange {
    pub start: u64,
    pub end: u64,
}

/// The model of a [`LocalCfgSourceRange`].
pub struct LocalCfgSourceRangeModel {
    pub start: u64,
    pub end: u64,
}

impl DeepView for LocalCfgSourceRange {
    type V = LocalCfgSourceRangeModel;

    open spec fn deep_view(&self) -> LocalCfgSourceRangeModel {
        LocalCfgSourceRangeModel {
            start: self.start.deep_view(),
            end: self.end.deep_view(),
        }
    }
}

impl Record for LocalCfgSourceRange {
    open spec fn json(v: LocalCfgSourceRangeModel) -> JsonModel {
        JsonModel::object()
            .with("start"@, <u64 as Record>::json(v.start))
            .with("end"@, <u64 as Record>::json(v.end))
    }

    fn copied(&self) -> (r: LocalCfgSourceRange) {
        LocalCfgSourceRange {
            start: self.start.copied(),
            end: self.end.copied(),
        }
    }

    fn same_as(&self, other: &LocalCfgSourceRange) -> (r: bool) {
        self.start.same_as(&other.start)
            && self.end.same_as(&other.end)
    }

    fn to_json(&self) -> (r: Json) {
        Json::object()
            .with("start", self.start.to_json())
            .with("end", self.end.to_json())
    }
}

/// A node, with the source it was made from.
#[derive(Debug, PartialEq, Eq)]
pub struct LocalCfgNode {
    pub node_id: u64,
    pub role: LocalCfgNodeRole,
    pub source: Option<LocalCfgSourceRange>,
}

/// The model of a [`LocalCfgNode`].
pub struct LocalCfgNodeModel {
    pub node_id: u64,
    pub role: LocalCfgNodeRole,
    pub source: Option<LocalCfgSourceRangeModel>,
}

impl DeepView for LocalCfgNode {
    type V = LocalCfgNodeModel;

    open spec fn deep_view(&self) -> LocalCfgNodeModel {
        LocalCfgNodeModel {
            node_id: self.node_id.deep_view(),
            role: self.role.deep_view(),
            source: self.source.deep_view(),
        }
    }
}

impl Record for LocalCfgNode {
    open spec fn json(v: LocalCfgNodeModel) -> JsonModel {
        JsonModel::object()
            .with("nodeId"@, <u64 as Record>::json(v.node_id))
            .with("role"@, <LocalCfgNodeRole as Record>::json(v.role))
            .with_some("source"@, match v.source { Some(x) => Some(<LocalCfgSourceRange as Record>::json(x)), None => None })
    }

    fn copied(&self) -> (r: LocalCfgNode) {
        LocalCfgNode {
            node_id: self.node_id.copied(),
            role: self.role.copied(),
            source: self.source.copied(),
        }
    }

    fn same_as(&self, other: &LocalCfgNode) -> (r: bool) {
        self.node_id.same_as(&other.node_id)
            && self.role.same_as(&other.role)
            && self.source.same_as(&other.source)
    }

    fn to_json(&self) -> (r: Json) {
        Json::object()
            .with("nodeId", self.node_id.to_json())
            .with("role", self.role.to_json())
            .with_some("source", match &self.source { Some(x) => Some(x.to_json()), None => None })
    }
}

/// An edge between two nodes.
#[derive(Debug, PartialEq, Eq)]
pub struct LocalCfgEdge {
    pub source_node_id: u64,
    pub target_node_id: u64,
    pub kind: LocalCfgEdgeKind,
    pub label: Option<String>,
}

/// The model of a [`LocalCfgEdge`].
pub struct LocalCfgEdgeModel {
    pub source_node_id: u64,
    pub target_node_id: u64,
    pub kind: LocalCfgEdgeKind,
    pub label: Option<Seq<char>>,
}

impl DeepView for LocalCfgEdge {
    type V = LocalCfgEdgeModel;

    open spec fn deep_view(&self) -> LocalCfgEdgeModel {
        LocalCfgEdgeModel {
            source_node_id: self.source_node_id.deep_view(),
            target_node_id: self.target_node_id.deep_view(),
            kind: self.kind.deep_view(),
            label: self.label.deep_view(),
        }
    }
}

impl Record for LocalCfgEdge {
    open spec fn json(v: LocalCfgEdgeModel) -> JsonModel {
        JsonModel::object()
            .with("sourceNodeId"@, <u64 as Record>::json(v.source_node_id))
            .with("targetNodeId"@, <u64 as Record>::json(v.target_node_id))
            .with("kind"@, <LocalCfgEdgeKind as Record>::json(v.kind))
            .with_some("label"@, match v.label { Some(x) => Some(<String as Record>::json(x)), None => None })
    }

    fn copied(&self) -> (r: LocalCfgEdge) {
        LocalCfgEdge {
            source_node_id: self.source_node_id.copied(),
            target_node_id: self.target_node_id.copied(),
            kind: self.kind.copied(),
            label: self.label.copied(),
        }
    }

    fn same_as(&self, other: &LocalCfgEdge) -> (r: bool) {
        self.source_node_id.same_as(&other.source_node_id)
            && self.target_node_id.same_as(&other.target_node_id)
            && self.kind.same_as(&other.kind)
            && self.label.same_as(&other.label)
    }

    fn to_json(&self) -> (r: Json) {
        Json::object()
            .with("sourceNodeId", self.source_node_id.to_json())
            .with("targetNodeId", self.target_node_id.to_json())
            .with("kind", self.kind.to_json())
            .with_some("label", match &self.label { Some(x) => Some(x.to_json()), None => None })
    }
}

/// The control-flow graph of one callable.
#[derive(Debug, PartialEq, Eq)]
pub struct LocalCfgPayload {
    pub schema: String,
    pub graph_id: String,
    pub owner_symbol_identity: String,
    pub file: String,
    pub compiler_graph_name: String,
    pub provider: String,
    pub source_provenance: String,
    pub nodes: Vec<LocalCfgNode>,
    pub edges: Vec<LocalCfgEdge>,
}

/// The model of a [`LocalCfgPayload`].
pub struct LocalCfgPayloadModel {
    pub schema: Seq<char>,
    pub graph_id: Seq<char>,
    pub owner_symbol_identity: Seq<char>,
    pub file: Seq<char>,
    pub compiler_graph_name: Seq<char>,
    pub provider: Seq<char>,
    pub source_provenance: Seq<char>,
    pub nodes: Seq<LocalCfgNodeModel>,
    pub edges: Seq<LocalCfgEdgeModel>,
}

impl DeepView for LocalCfgPayload {
    type V = LocalCfgPayloadModel;

    open spec fn deep_view(&self) -> LocalCfgPayloadModel {
        LocalCfgPayloadModel {
            schema: self.schema.deep_view(),
            graph_id: self.graph_id.deep_view(),
            owner_symbol_identity: self.owner_symbol_identity.deep_view(),
            file: self.file.deep_view(),
            compiler_graph_name: self.compiler_graph_name.deep_view(),
            provider: self.provider.deep_view(),
            source_provenance: self.source_provenance.deep_view(),
            nodes: self.nodes.deep_view(),
            edges: self.edges.deep_view(),
        }
    }
}

impl Record for LocalCfgPayload {
    open spec fn json(v: LocalCfgPayloadModel) -> JsonModel {
        JsonModel::object()
            .with("schema"@, <String as Record>::json(v.schema))
            .with("graphId"@, <String as Record>::json(v.graph_id))
            .with("ownerSymbolIdentity"@, <String as Record>::json(v.owner_symbol_identity))
            .with("file"@, <String as Record>::json(v.file))
            .with("compilerGraphName"@, <String as Record>::json(v.compiler_graph_name))
            .with("provider"@, <String as Record>::json(v.provider))
            .with("sourceProvenance"@, <String as Record>::json(v.source_provenance))
            .with("nodes"@, <Vec<LocalCfgNode> as Record>::json(v.nodes))
            .with("edges"@, <Vec<LocalCfgEdge> as Record>::json(v.edges))
    }

    fn copied(&self) -> (r: LocalCfgPayload) {
        LocalCfgPayload {
            schema: self.schema.copied(),
            graph_id: self.graph_id.copied(),
            owner_symbol_identity: self.owner_symbol_identity.copied(),
            file: self.file.copied(),
            compiler_graph_name: self.compiler_graph_name.copied(),
            provider: self.provider.copied(),
            source_provenance: self.source_provenance.copied(),
            nodes: self.nodes.copied(),
            edges: self.edges.copied(),
        }
    }

    fn same_as(&self, other: &LocalCfgPayload) -> (r: bool) {
        self.schema.same_as(&other.schema)
            && self.graph_id.same_as(&other.graph_id)
            && self.owner_symbol_identity.same_as(&other.owner_symbol_identity)
            && self.file.same_as(&other.file)
            && self.compiler_graph_name.same_as(&other.compiler_graph_name)
            && self.provider.same_as(&other.provider)
            && self.source_provenance.same_as(&other.source_provenance)
            && self.nodes.same_as(&other.nodes)
            && self.edges.same_as(&other.edges)
    }

    fn to_json(&self) -> (r: Json) {
        Json::object()
            .with("schema", self.schema.to_json())
            .with("graphId", self.graph_id.to_json())
            .with("ownerSymbolIdentity", self.owner_symbol_identity.to_json())
            .with("file", self.file.to_json())
            .with("compilerGraphName", self.compiler_graph_name.to_json())
            .with("provider", self.provider.to_json())
            .with("sourceProvenance", self.source_provenance.to_json())
            .with("nodes", self.nodes.to_json())
            .with("edges", self.edges.to_json())
    }
}

/// Where a graph comes from.
#[derive(Debug, PartialEq, Eq)]
pub struct LocalCfgSupport {
    pub member_alias: String,
    pub compilation_id: String,
    pub generation_ref: CasObject,
    pub payload_ref: CasObject,
}

/// The model of a [`LocalCfgSupport`].
pub struct LocalCfgSupportModel {
    pub member_alias: Seq<char>,
    pub compilation_id: Seq<char>,
    pub generation_ref: CasObjectModel,
    pub payload_ref: CasObjectModel,
}

impl DeepView for LocalCfgSupport {
    type V = LocalCfgSupportModel;

    open spec fn deep_view(&self) -> LocalCfgSupportModel {
        LocalCfgSupportModel {
            member_alias: self.member_alias.deep_view(),
            compilation_id: self.compilation_id.deep_view(),
            generation_ref: self.generation_ref.deep_view(),
            payload_ref: self.payload_ref.deep_view(),
        }
    }
}

impl Record for LocalCfgSupport {
    open spec fn json(v: LocalCfgSupportModel) -> JsonModel {
        JsonModel::object()
            .with("memberAlias"@, <String as Record>::json(v.member_alias))
            .with("compilationId"@, <String as Record>::json(v.compilation_id))
            .with("generationRef"@, <CasObject as Record>::json(v.generation_ref))
            .with("payloadRef"@, <CasObject as Record>::json(v.payload_ref))
    }

    fn copied(&self) -> (r: LocalCfgSupport) {
        LocalCfgSupport {
            member_alias: self.member_alias.copied(),
            compilation_id: self.compilation_id.copied(),
            generation_ref: self.generation_ref.copied(),
            payload_ref: self.payload_ref.copied(),
        }
    }

    fn same_as(&self, other: &LocalCfgSupport) -> (r: bool) {
        self.member_alias.same_as(&other.member_alias)
            && self.compilation_id.same_as(&other.compilation_id)
            && self.generation_ref.same_as(&other.generation_ref)
            && self.payload_ref.same_as(&other.payload_ref)
    }

    fn to_json(&self) -> (r: Json) {
        Json::object()
            .with("memberAlias", self.member_alias.to_json())
            .with("compilationId", self.compilation_id.to_json())
            .with("generationRef", self.generation_ref.to_json())
            .with("payloadRef", self.payload_ref.to_json())
    }
}

/// A graph with its support.
#[derive(Debug, PartialEq, Eq)]
pub struct PreparedLocalCfg {
    pub payload: LocalCfgPayload,
    pub support: LocalCfgSupport,
}

/// The model of a [`PreparedLocalCfg`].
pub struct PreparedLocalCfgModel {
    pub payload: LocalCfgPayloadModel,
    pub support: LocalCfgSupportModel,
}

impl DeepView for PreparedLocalCfg {
    type V = PreparedLocalCfgModel;

    open spec fn deep_view(&self) -> PreparedLocalCfgModel {
        PreparedLocalCfgModel {
            payload: self.payload.deep_view(),
            support: self.support.deep_view(),
        }
    }
}

impl Record for PreparedLocalCfg {
    open spec fn json(v: PreparedLocalCfgModel) -> JsonModel {
        JsonModel::object()
            .with("payload"@, <LocalCfgPayload as Record>::json(v.payload))
            .with("support"@, <LocalCfgSupport as Record>::json(v.support))
    }

    fn copied(&self) -> (r: PreparedLocalCfg) {
        PreparedLocalCfg {
            payload: self.payload.copied(),
            support: self.support.copied(),
        }
    }

    fn same_as(&self, other: &PreparedLocalCfg) -> (r: bool) {
        self.payload.same_as(&other.payload)
            && self.support.same_as(&other.support)
    }

    fn to_json(&self) -> (r: Json) {
        Json::object()
            .with("payload", self.payload.to_json())
            .with("support", self.support.to_json())
    }
}

/// The place of a kind in the order of the kinds.
pub open spec fn kind_rank(kind: LocalCfgEdgeKind) -> u8 {
    match kind {
        LocalCfgEdgeKind::Next => 0,
        LocalCfgEdgeKind::True => 1,
        LocalCfgEdgeKind::False => 2,
        LocalCfgEdgeKind::WhenCase => 3,
        LocalCfgEdgeKind::Exception => 4,
        LocalCfgEdgeKind::Return => 5,
        LocalCfgEdgeKind::LoopBack => 6,
        LocalCfgEdgeKind::Break => 7,
        LocalCfgEdgeKind::Continue => 8,
        LocalCfgEdgeKind::Finally => 9,
        LocalCfgEdgeKind::Dead => 10,
    }
}

fn rank_of(kind: LocalCfgEdgeKind) -> (r: u8)
    ensures
        r == kind_rank(kind),
{
    match kind {
        LocalCfgEdgeKind::Next => 0,
        LocalCfgEdgeKind::True => 1,
        LocalCfgEdgeKind::False => 2,
        LocalCfgEdgeKind::WhenCase => 3,
        LocalCfgEdgeKind::Exception => 4,
        LocalCfgEdgeKind::Return => 5,
        LocalCfgEdgeKind::LoopBack => 6,
        LocalCfgEdgeKind::Break => 7,
        LocalCfgEdgeKind::Continue => 8,
        LocalCfgEdgeKind::Finally => 9,
        LocalCfgEdgeKind::Dead => 10,
    }
}

/// The order of labels: no label comes first.
pub open spec fn label_less(a: Option<Seq<char>>, b: Option<Seq<char>>) -> bool {
    match (a, b) {
        (None, Some(_)) => true,
        (Some(x), Some(y)) => text_less(x, y),
        _ => false,
    }
}

/// The order of edges: by source, target, kind and label.
pub open spec fn edge_less(a: LocalCfgEdgeModel, b: LocalCfgEdgeModel) -> bool {
    if a.source_node_id != b.source_node_id {
        a.source_node_id < b.source_node_id
    } else if a.target_node_id != b.target_node_id {
        a.target_node_id < b.target_node_id
    } else if a.kind != b.kind {
        kind_rank(a.kind) < kind_rank(b.kind)
    } else {
        label_less(a.label, b.label)
    }
}

fn edge_before(a: &LocalCfgEdge, b: &LocalCfgEdge) -> (r: bool)
    ensures
        r == edge_less(a.deep_view(), b.deep_view()),
{
    if a.source_node_id != b.source_node_id {
        a.source_node_id < b.source_node_id
    } else if a.target_node_id != b.target_node_id {
        a.target_node_id < b.target_node_id
    } else if a.kind != b.kind {
        rank_of(a.kind) < rank_of(b.kind)
    } else {
        match (&a.label, &b.label) {
            (None, Some(_)) => true,
            (Some(x), Some(y)) => text_before(x.as_str(), y.as_str()),
            _ => false,
        }
    }
}

/// Whether control can leave the graph at a node.
pub open spec fn is_terminal(role: LocalCfgNodeRole) -> bool {
    role == LocalCfgNodeRole::Exit || role == LocalCfgNodeRole::Return || role
        == LocalCfgNodeRole::Throw
}

/// The outcome for a text under a label.
pub open spec fn text_checked(value: Seq<char>, label: Seq<char>, max: usize) -> Result<
    (),
    ErrorModel,
> {
    if is_plain(value, max) {
        Ok(())
    } else {
        refused(label + " is empty, oversized, non-NFC, or unsafe"@)
    }
}

fn validate_text(value: &str, label: &str, max_bytes: usize) -> (r: Result<(), ClewError>)
    ensures
        outcome(r) == text_checked(value@, label@, max_bytes),
{
    if plain(value, max_bytes) {
        Ok(())
    } else {
        Err(invalid(joined(label, " is empty, oversized, non-NFC, or unsafe").as_str()))
    }
}

/// The outcome of the pass over the nodes from the `i`-th on: their ids grow
/// strictly and their source ranges are not empty.
pub open spec fn nodes_checked(nodes: Seq<LocalCfgNodeModel>, i: int) -> Result<(), ErrorModel>
    decreases nodes.len() - i,
{
    if i < 0 || i >= nodes.len() {
        Ok(())
    } else if i > 0 && nodes[i - 1].node_id >= nodes[i].node_id {
        refused("local CFG nodes are not canonical and unique"@)
    } else if nodes[i].source matches Some(source) && source.end <= source.start {
        refused("local CFG node source range is invalid"@)
    } else {
        nodes_checked(nodes, i + 1)
    }
}

/// Whether a node has an id.
pub open spec fn has_node(nodes: Seq<LocalCfgNodeModel>, id: u64) -> bool {
    exists|k: int| 0 <= k < nodes.len() && (#[trigger] nodes[k]).node_id == id
}

/// The number of nodes with a role that counts.
pub open spec fn count_nodes(
    nodes: Seq<LocalCfgNodeModel>,
    counts: spec_fn(LocalCfgNodeRole) -> bool,
) -> nat
    decreases nodes.len(),
{
    if nodes.len() == 0 {
        0
    } else {
        count_nodes(nodes.drop_last(), counts) + if counts(nodes.last().role) {
            1nat
        } else {
            0nat
        }
    }
}

pub open spec fn entry_count(nodes: Seq<LocalCfgNodeModel>) -> nat {
    count_nodes(nodes, |role: LocalCfgNodeRole| role == LocalCfgNodeRole::Entry)
}

pub open spec fn terminal_count(nodes: Seq<LocalCfgNodeModel>) -> nat {
    count_nodes(nodes, |role: LocalCfgNodeRole| is_terminal(role))
}

/// The outcome of the pass over the edges from the `i`-th on: their ends are
/// nodes, they stand in order, each once, and their labels are fit.
pub open spec fn edges_checked(
    nodes: Seq<LocalCfgNodeModel>,
    edges: Seq<LocalCfgEdgeModel>,
    i: int,
) -> Result<(), ErrorModel>
    decreases edges.len() - i,
{
    if i < 0 || i >= edges.len() {
        Ok(())
    } else if !has_node(nodes, edges[i].source_node_id) || !has_node(
        nodes,
        edges[i].target_node_id,
    ) {
        refused("local CFG edge has a dangling endpoint"@)
    } else if i > 0 && !edge_less(edges[i - 1], edges[i]) {
        refused("local CFG edges are not canonical and unique"@)
    } else {
        match edges[i].label {
            Some(label) => match text_checked(label, "local CFG edge label"@, MAX_CFG_TEXT_BYTES) {
                Ok(_) => edges_checked(nodes, edges, i + 1),
                Err(e) => Err(e),
            },
            None => edges_checked(nodes, edges, i + 1),
        }
    }
}

/// Whether an edge leads from one node to another.
pub open spec fn steps(edges: Seq<LocalCfgEdgeModel>, from: u64, to: u64) -> bool {
    exists|k: int|
        0 <= k < edges.len() && (#[trigger] edges[k]).source_node_id == from
            && edges[k].target_node_id == to
}

/// Whether `n` edges lead from one node to another.
pub open spec fn reaches_in(edges: Seq<LocalCfgEdgeModel>, from: u64, to: u64, n: nat) -> bool
    decreases n,
{
    if n == 0 {
        from == to
    } else {
        exists|via: u64|
            reaches_in(edges, from, via, (n - 1) as nat) && #[trigger] steps(edges, via, to)
    }
}

/// Whether some edges lead from one node to another.
pub open spec fn reaches(edges: Seq<LocalCfgEdgeModel>, from: u64, to: u64) -> bool {
    exists|n: nat| reaches_in(edges, from, to, n)
}

/// The first node that is an entry.
pub open spec fn entry_of(nodes: Seq<LocalCfgNodeModel>) -> u64
    decreases nodes.len(),
{
    if nodes.len() == 0 {
        0
    } else if nodes[0].role == LocalCfgNodeRole::Entry {
        nodes[0].node_id
    } else {
        entry_of(nodes.drop_first())
    }
}

/// Whether every node that is not dead can be reached from the entry.
pub open spec fn all_reachable(p: LocalCfgPayloadModel) -> bool {
    forall|k: int|
        0 <= k < p.nodes.len() && (#[trigger] p.nodes[k]).role != LocalCfgNodeRole::Dead
            ==> reaches(p.edges, entry_of(p.nodes), p.nodes[k].node_id)
}

/// The identity of a graph: the digest of the graph without its identity.
pub open spec fn graph_identity(p: LocalCfgPayloadModel) -> Seq<char> {
    json_digest(
        <LocalCfgPayload as Record>::json(LocalCfgPayloadModel { graph_id: Seq::empty(), ..p }),
    )
}

/// The outcome for the fields of a graph that are texts.
pub open spec fn texts_checked(p: LocalCfgPayloadModel) -> Result<(), ErrorModel> {
    if p.schema != LOCAL_CFG_SCHEMA@ || p.provider != "K2_FIR_CFG"@ || p.source_provenance
        != "COMPILER_UTF16_RANGE_TO_UTF8_BYTES"@ {
        refused("local CFG authority fields are invalid"@)
    } else {
        match full_symbol_checked(p.owner_symbol_identity) {
            Err(e) => Err(e),
            Ok(_) => match text_checked(p.file, "local CFG file"@, MAX_CFG_PATH_BYTES) {
                Err(e) => Err(e),
                Ok(_) => if !is_relative_path(p.file) {
                    refused("local CFG file is not repository-relative"@)
                } else {
                    text_checked(
                        p.compiler_graph_name,
                        "local CFG compiler graph name"@,
                        MAX_CFG_TEXT_BYTES,
                    )
                },
            },
        }
    }
}

/// The outcome of the validation of a graph.
pub open spec fn validated(p: LocalCfgPayloadModel) -> Result<(), ErrorModel> {
    match texts_checked(p) {
        Err(e) => Err(e),
        Ok(_) => if p.nodes.len() == 0 || p.nodes.len() > MAX_LOCAL_CFG_NODES || p.edges.len()
            > MAX_LOCAL_CFG_EDGES {
            exceeded("local CFG exceeds its node or edge budget"@)
        } else {
            match nodes_checked(p.nodes, 0) {
                Err(e) => Err(e),
                Ok(_) => if entry_count(p.nodes) != 1 || terminal_count(p.nodes) == 0 {
                    refused("local CFG must have one entry and a terminal node"@)
                } else {
                    match edges_checked(p.nodes, p.edges, 0) {
                        Err(e) => Err(e),
                        Ok(_) => if !all_reachable(p) {
                            refused("local CFG has an unreachable non-dead node"@)
                        } else if p.graph_id != graph_identity(p) {
                            refused("local CFG graph identity is invalid"@)
                        } else {
                            Ok(())
                        },
                    }
                },
            }
        },
    }
}

fn check_texts(p: &LocalCfgPayload) -> (r: Result<(), ClewError>)
    ensures
        outcome(r) == texts_checked(p.deep_view()),
{
    if !same_text(p.schema.as_str(), LOCAL_CFG_SCHEMA) || !same_text(
        p.provider.as_str(),
        "K2_FIR_CFG",
    ) || !same_text(p.source_provenance.as_str(), "COMPILER_UTF16_RANGE_TO_UTF8_BYTES") {
        return Err(invalid("local CFG authority fields are invalid"));
    }
    validate_kotlin_full_symbol_identity(p.owner_symbol_identity.as_str())?;
    validate_text(p.file.as_str(), "local CFG file", MAX_CFG_PATH_BYTES)?;
    if !relative_path(p.file.as_str()) {
        return Err(invalid("local CFG file is not repository-relative"));
    }
    validate_text(
        p.compiler_graph_name.as_str(),
        "local CFG compiler graph name",
        MAX_CFG_TEXT_BYTES,
    )
}

fn check_nodes(nodes: &Vec<LocalCfgNode>) -> (r: Result<(), ClewError>)
    ensures
        outcome(r) == nodes_checked(nodes.deep_view(), 0),
{
    let ghost m = nodes.deep_view();
    let mut i: usize = 0;
    while i < nodes.len()
        invariant
            i <= nodes.len(),
            m == nodes.deep_view(),
            nodes_checked(m, 0) == nodes_checked(m, i as int),
        decreases nodes.len() - i,
    {
        assert(m[i as int] == nodes@[i as int].deep_view());
        if i > 0 {
            assert(m[i - 1] == nodes@[i - 1].deep_view());
        }
        if i > 0 && nodes[i - 1].node_id >= nodes[i].node_id {
            return Err(invalid("local CFG nodes are not canonical and unique"));
        }
        if let Some(source) = &nodes[i].source {
            if source.end <= source.start {
                return Err(invalid("local CFG node source range is invalid"));
            }
        }
        i = i + 1;
    }
    Ok(())
}

/// The numbers of entries and of terminal nodes.
fn count_roles(nodes: &Vec<LocalCfgNode>) -> (r: (usize, usize))
    ensures
        r.0 == entry_count(nodes.deep_view()),
        r.1 == terminal_count(nodes.deep_view()),
{
    let ghost m = nodes.deep_view();
    let mut entries: usize = 0;
    let mut terminals: usize = 0;
    let mut i: usize = 0;
    while i < nodes.len()
        invariant
            i <= nodes.len(),
            m == nodes.deep_view(),
            entries <= i,
            terminals <= i,
            entries == entry_count(m.take(i as int)),
            terminals == terminal_count(m.take(i as int)),
        decreases nodes.len() - i,
    {
        proof {
            assert(m.take(i + 1).drop_last() =~= m.take(i as int));
            assert(m.take(i + 1).last() == nodes@[i as int].deep_view());
        }
        match nodes[i].role {
            LocalCfgNodeRole::Entry => {
                entries = entries + 1;
            },
            LocalCfgNodeRole::Exit => {
                terminals = terminals + 1;
            },
            LocalCfgNodeRole::Return => {
                terminals = terminals + 1;
            },
            LocalCfgNodeRole::Throw => {
                terminals = terminals + 1;
            },
            _ => {},
        }
        i = i + 1;
    }
    assert(m.take(m.len() as int) =~= m);
    (entries, terminals)
}

fn find_node(nodes: &Vec<LocalCfgNode>, id: u64) -> (r: bool)
    ensures
        r == has_node(nodes.deep_view(), id),
{
    let ghost m = nodes.deep_view();
    let mut i: usize = 0;
    while i < nodes.len()
        invariant
            i <= nodes.len(),
            m == nodes.deep_view(),
            forall|k: int| 0 <= k < i ==> (#[trigger] m[k]).node_id != id,
        decreases nodes.len() - i,
    {
        assert(m[i as int] == nodes@[i as int].deep_view());
        if nodes[i].node_id == id {
            return true;
        }
        i = i + 1;
    }
    false
}

fn check_edges(nodes: &Vec<LocalCfgNode>, edges: &Vec<LocalCfgEdge>) -> (r: Result<(), ClewError>)
    ensures
        outcome(r) == edges_checked(nodes.deep_view(), edges.deep_view(), 0),
{
    let ghost n = nodes.deep_view();
    let ghost m = edges.deep_view();
    let mut i: usize = 0;
    while i < edges.len()
        invariant
            i <= edges.len(),
            n == nodes.deep_view(),
            m == edges.deep_view(),
            edges_checked(n, m, 0) == edges_checked(n, m, i as int),
        decreases edges.len() - i,
    {
        assert(m[i as int] == edges@[i as int].deep_view());
        if i > 0 {
            assert(m[i - 1] == edges@[i - 1].deep_view());
        }
        if !find_node(nodes, edges[i].source_node_id) || !find_node(
            nodes,
            edges[i].target_node_id,
        ) {
            return Err(invalid("local CFG edge has a dangling endpoint"));
        }
        if i > 0 && !edge_before(&edges[i - 1], &edges[i]) {
            return Err(invalid("local CFG edges are not canonical and unique"));
        }
        if let Some(label) = &edges[i].label {
            validate_text(label.as_str(), "local CFG edge label", MAX_CFG_TEXT_BYTES)?;
        }
        i = i + 1;
    }
    Ok(())
}

/// Ends of edges that passed are nodes.
proof fn checked_edges_have_nodes(
    nodes: Seq<LocalCfgNodeModel>,
    edges: Seq<LocalCfgEdgeModel>,
    i: int,
)
    requires
        0 <= i,
        edges_checked(nodes, edges, i) is Ok,
    ensures
        forall|k: int|
            i <= k < edges.len() ==> has_node(nodes, (#[trigger] edges[k]).source_node_id)
                && has_node(nodes, edges[k].target_node_id),
    decreases edges.len() - i,
{
    if i < edges.len() {
        checked_edges_have_nodes(nodes, edges, i + 1);
    }
}

/// There is an entry where one is counted, and it is found.
proof fn entry_is_a_node(nodes: Seq<LocalCfgNodeModel>)
    requires
        entry_count(nodes) > 0,
    ensures
        has_node(nodes, entry_of(nodes)),
{
    let counts = |role: LocalCfgNodeRole| role == LocalCfgNodeRole::Entry;
    counted_node_exists(nodes, counts);
    let k = choose|k: int|
        0 <= k < nodes.len() && counts((#[trigger] nodes[k]).role);
    first_entry_is_a_node(nodes, k);
}

proof fn counted_node_exists(
    nodes: Seq<LocalCfgNodeModel>,
    counts: spec_fn(LocalCfgNodeRole) -> bool,
)
    requires
        count_nodes(nodes, counts) > 0,
    ensures
        exists|k: int| 0 <= k < nodes.len() && counts((#[trigger] nodes[k]).role),
    decreases nodes.len(),
{
    if nodes.len() > 0 {
        if counts(nodes.last().role) {
            assert(counts(nodes[nodes.len() - 1].role));
        } else {
            counted_node_exists(nodes.drop_last(), counts);
            let k = choose|k: int|
                0 <= k < nodes.drop_last().len() && counts((#[trigger] nodes.drop_last()[k]).role);
            assert(counts(nodes[k].role));
        }
    }
}

proof fn first_entry_is_a_node(nodes: Seq<LocalCfgNodeModel>, k: int)
    requires
        0 <= k < nodes.len(),
        nodes[k].role == LocalCfgNodeRole::Entry,
    ensures
        has_node(nodes, entry_of(nodes)),
    decreases nodes.len(),
{
    if nodes[0].role == LocalCfgNodeRole::Entry {
        assert(nodes[0].node_id == entry_of(nodes));
    } else {
        let rest = nodes.drop_first();
        assert(rest[k - 1] == nodes[k]);
        first_entry_is_a_node(rest, k - 1);
        let j = choose|j: int|
            0 <= j < rest.len() && (#[trigger] rest[j]).node_id == entry_of(rest);
        assert(nodes[j + 1].node_id == entry_of(nodes));
    }
}

fn find_entry(nodes: &Vec<LocalCfgNode>) -> (r: u64)
    ensures
        r == entry_of(nodes.deep_view()),
{
    let ghost m = nodes.deep_view();
    let mut i: usize = 0;
    assert(m.skip(0) =~= m);
    while i < nodes.len()
        invariant
            i <= nodes.len(),
            m == nodes.deep_view(),
            entry_of(m) == entry_of(m.skip(i as int)),
        decreases nodes.len() - i,
    {
        assert(m.skip(i as int)[0] == nodes@[i as int].deep_view());
        if nodes[i].role == LocalCfgNodeRole::Entry {
            return nodes[i].node_id;
        }
        assert(m.skip(i as int).drop_first() =~= m.skip(i + 1));
        i = i + 1;
    }
    0
}

/// The ids of some nodes.
pub open spec fn node_ids(nodes: Seq<LocalCfgNodeModel>) -> Seq<u64> {
    Seq::new(nodes.len(), |k: int| nodes[k].node_id)
}

/// Whether a list of ids has an id.
fn id_in(ids: &Vec<u64>, id: u64) -> (r: bool)
    ensures
        r == ids@.contains(id),
{
    let mut i: usize = 0;
    while i < ids.len()
        invariant
            i <= ids.len(),
            forall|k: int| 0 <= k < i ==> ids@[k] != id,
        decreases ids.len() - i,
    {
        if ids[i] == id {
            return true;
        }
        i = i + 1;
    }
    false
}

/// Ids that differ and all belong to nodes are at most as many as the nodes.
proof fn no_more_ids_than_nodes(ids: Seq<u64>, nodes: Seq<LocalCfgNodeModel>)
    requires
        ids.no_duplicates(),
        forall|k: int| 0 <= k < ids.len() ==> has_node(nodes, #[trigger] ids[k]),
    ensures
        ids.len() <= nodes.len(),
{
    let all = node_ids(nodes);
    ids.unique_seq_to_set();
    assert forall|x: u64| ids.to_set().contains(x) implies all.to_set().contains(x) by {
        let k = choose|k: int| 0 <= k < ids.len() && ids[k] == x;
        assert(has_node(nodes, ids[k]));
        let j = choose|j: int| 0 <= j < nodes.len() && (#[trigger] nodes[j]).node_id == x;
        assert(all[j] == x);
    }
    vstd::set_lib::lemma_len_subset(ids.to_set(), all.to_set());
    vstd::seq_lib::seq_to_set_is_finite(all);
    all.lemma_cardinality_of_set();
}

/// What is reached stays inside a list that is closed under steps.
proof fn reached_is_closed(
    edges: Seq<LocalCfgEdgeModel>,
    ids: Seq<u64>,
    from: u64,
    to: u64,
    n: nat,
)
    requires
        ids.contains(from),
        forall|k: int|
            0 <= k < edges.len() && ids.contains((#[trigger] edges[k]).source_node_id)
                ==> ids.contains(edges[k].target_node_id),
        reaches_in(edges, from, to, n),
    ensures
        ids.contains(to),
    decreases n,
{
    if n > 0 {
        let via = choose|via: u64|
            reaches_in(edges, from, via, (n - 1) as nat) && #[trigger] steps(edges, via, to);
        reached_is_closed(edges, ids, from, via, (n - 1) as nat);
        let k = choose|k: int|
            0 <= k < edges.len() && (#[trigger] edges[k]).source_node_id == via
                && edges[k].target_node_id == to;
    }
}

/// One more step is reached.
proof fn reaches_one_more(edges: Seq<LocalCfgEdgeModel>, from: u64, via: u64, k: int)
    requires
        reaches(edges, from, via),
        0 <= k < edges.len(),
        edges[k].source_node_id == via,
    ensures
        reaches(edges, from, edges[k].target_node_id),
{
    let n = choose|n: nat| reaches_in(edges, from, via, n);
    assert(steps(edges, via, edges[k].target_node_id));
    assert(reaches_in(edges, from, edges[k].target_node_id, n + 1));
}

/// The ids that can be reached from the entry.
fn reachable_ids(nodes: &Vec<LocalCfgNode>, edges: &Vec<LocalCfgEdge>, entry: u64) -> (r: Vec<u64>)
    requires
        has_node(nodes.deep_view(), entry),
        forall|k: int|
            0 <= k < edges.deep_view().len() ==> has_node(
                nodes.deep_view(),
                (#[trigger] edges.deep_view()[k]).target_node_id,
            ),
    ensures
        forall|id: u64| #[trigger] r@.contains(id) == reaches(edges.deep_view(), entry, id),
{
    let ghost n = nodes.deep_view();
    let ghost m = edges.deep_view();
    let mut queue: Vec<u64> = Vec::new();
    queue.push(entry);
    let mut head: usize = 0;
    proof {
        assert(reaches_in(m, entry, entry, 0));
        assert(queue@[0] == entry);
        no_more_ids_than_nodes(queue@, n);
    }
    while head < queue.len()
        invariant
            head <= queue.len() <= n.len(),
            n == nodes.deep_view(),
            m == edges.deep_view(),
            queue@.len() > 0,
            queue@[0] == entry,
            queue@.no_duplicates(),
            forall|k: int| 0 <= k < m.len() ==> has_node(n, (#[trigger] m[k]).target_node_id),
            forall|k: int| 0 <= k < queue@.len() ==> has_node(n, #[trigger] queue@[k]),
            forall|k: int| 0 <= k < queue@.len() ==> reaches(m, entry, #[trigger] queue@[k]),
            forall|h: int, k: int|
                0 <= h < head && 0 <= k < m.len() && (#[trigger] m[k]).source_node_id
                    == #[trigger] queue@[h] ==> queue@.contains(m[k].target_node_id),
        decreases n.len() - head,
    {
        let node: u64 = queue[head];
        let mut i: usize = 0;
        while i < edges.len()
            invariant
                i <= edges.len(),
                head < queue.len() <= n.len(),
                n == nodes.deep_view(),
                m == edges.deep_view(),
                queue@[0] == entry,
                node == queue@[head as int],
                queue@.no_duplicates(),
                forall|k: int| 0 <= k < m.len() ==> has_node(n, (#[trigger] m[k]).target_node_id),
                forall|k: int| 0 <= k < queue@.len() ==> has_node(n, #[trigger] queue@[k]),
                forall|k: int| 0 <= k < queue@.len() ==> reaches(m, entry, #[trigger] queue@[k]),
                forall|h: int, k: int|
                    0 <= h < head && 0 <= k < m.len() && (#[trigger] m[k]).source_node_id
                        == #[trigger] queue@[h] ==> queue@.contains(m[k].target_node_id),
                forall|k: int|
                    0 <= k < i && (#[trigger] m[k]).source_node_id == node ==> queue@.contains(
                        m[k].target_node_id,
                    ),
            decreases edges.len() - i,
        {
            assert(m[i as int] == edges@[i as int].deep_view());
            if edges[i].source_node_id == node && !id_in(&queue, edges[i].target_node_id) {
                let ghost before = queue@;
                proof {
                    reaches_one_more(m, entry, node, i as int);
                    assert(has_node(n, m[i as int].target_node_id));
                }
                queue.push(edges[i].target_node_id);
                proof {
                    assert forall|x: u64| before.contains(x) implies queue@.contains(x) by {
                        let k = choose|k: int| 0 <= k < before.len() && before[k] == x;
                        assert(queue@[k] == x);
                    }
                    assert(queue@[before.len() as int] == m[i as int].target_node_id);
                    no_more_ids_than_nodes(queue@, n);
                }
            }
            i = i + 1;
        }
        head = head + 1;
    }
    proof {
        assert forall|id: u64| #[trigger] queue@.contains(id) == reaches(m, entry, id) by {
            if reaches(m, entry, id) {
                let steps_taken = choose|s: nat| reaches_in(m, entry, id, s);
                assert(queue@.contains(entry)) by {
                    assert(queue@[0] == entry);
                }
                assert forall|k: int|
                    0 <= k < m.len() && queue@.contains((#[trigger] m[k]).source_node_id)
                    implies queue@.contains(m[k].target_node_id) by {
                    let h = choose|h: int|
                        0 <= h < queue@.len() && queue@[h] == m[k].source_node_id;
                    assert(m[k].source_node_id == queue@[h]);
                }
                reached_is_closed(m, queue@, entry, id, steps_taken);
            }
        }
    }
    queue
}

fn check_reachable(p: &LocalCfgPayload) -> (r: bool)
    requires
        entry_count(p.deep_view().nodes) > 0,
        edges_checked(p.deep_view().nodes, p.deep_view().edges, 0) is Ok,
    ensures
        r == all_reachable(p.deep_view()),
{
    let ghost m = p.deep_view();
    let entry: u64 = find_entry(&p.nodes);
    proof {
        entry_is_a_node(m.nodes);
        checked_edges_have_nodes(m.nodes, m.edges, 0);
    }
    let ids = reachable_ids(&p.nodes, &p.edges, entry);
    let mut i: usize = 0;
    while i < p.nodes.len()
        invariant
            i <= p.nodes.len(),
            m == p.deep_view(),
            entry == entry_of(m.nodes),
            forall|id: u64| #[trigger] ids@.contains(id) == reaches(m.edges, entry, id),
            forall|k: int|
                0 <= k < i && (#[trigger] m.nodes[k]).role != LocalCfgNodeRole::Dead ==> reaches(
                    m.edges,
                    entry,
                    m.nodes[k].node_id,
                ),
        decreases p.nodes.len() - i,
    {
        assert(m.nodes[i as int] == p.nodes@[i as int].deep_view());
        if p.nodes[i].role != LocalCfgNodeRole::Dead && !id_in(&ids, p.nodes[i].node_id) {
            return false;
        }
        i = i + 1;
    }
    true
}

/// A copy of a graph without its identity.
fn unsigned(p: &LocalCfgPayload) -> (r: LocalCfgPayload)
    ensures
        r.deep_view() == (LocalCfgPayloadModel { graph_id: Seq::empty(), ..p.deep_view() }),
{
    let mut r = p.copied();
    r.graph_id = String::new();
    r
}

/// Validates a graph: its authority fields, its texts, its size, the order of its
/// nodes and edges, that every live node is reachable, and its identity.
pub fn validate(payload: &LocalCfgPayload) -> (r: Result<(), ClewError>)
    ensures
        outcome(r) == validated(payload.deep_view()),
{
    check_texts(payload)?;
    if payload.nodes.len() == 0 || payload.nodes.len() > MAX_LOCAL_CFG_NODES
        || payload.edges.len() > MAX_LOCAL_CFG_EDGES {
        return Err(budget("local CFG exceeds its node or edge budget"));
    }
    check_nodes(&payload.nodes)?;
    let (entries, terminals) = count_roles(&payload.nodes);
    if entries != 1 || terminals == 0 {
        return Err(invalid("local CFG must have one entry and a terminal node"));
    }
    check_edges(&payload.nodes, &payload.edges)?;
    if !check_reachable(payload) {
        return Err(invalid("local CFG has an unreachable non-dead node"));
    }
    let identity = hash(&unsigned(payload).to_json());
    if !same_text(payload.graph_id.as_str(), identity.as_str()) {
        return Err(invalid("local CFG graph identity is invalid"));
    }
    Ok(())
}

/// A graph with its identity set.
pub open spec fn signed(p: LocalCfgPayloadModel) -> LocalCfgPayloadModel {
    LocalCfgPayloadModel { graph_id: graph_identity(p), ..p }
}

/// Sets the identity of a graph and validates the graph.
pub fn seal(payload: LocalCfgPayload) -> (r: Result<LocalCfgPayload, ClewError>)
    ensures
        outcome(r) == (match validated(signed(payload.deep_view())) {
            Ok(_) => Ok(signed(payload.deep_view())),
            Err(e) => Err(e),
        }),
{
    let mut sealed = unsigned(&payload);
    let identity = hash(&sealed.to_json());
    sealed.graph_id = identity;
    validate(&sealed)?;
    Ok(sealed)
}

/// A graph that was sealed validates.
pub proof fn sealed_graph_validates(p: LocalCfgPayloadModel, sealed: LocalCfgPayloadModel)
    requires
        (match validated(signed(p)) {
            Ok(_) => Ok(signed(p)),
            Err(e) => Err::<LocalCfgPayloadModel, ErrorModel>(e),
        }) == Ok::<LocalCfgPayloadModel, ErrorModel>(sealed),
    ensures
        validated(sealed) is Ok,
        sealed.graph_id == graph_identity(sealed),
        sealed == (LocalCfgPayloadModel { graph_id: sealed.graph_id, ..p }),
{
    assert(LocalCfgPayloadModel { graph_id: Seq::<char>::empty(), ..sealed }
        == LocalCfgPayloadModel { graph_id: Seq::<char>::empty(), ..p });
}

/// The key of a graph: its member and the callable it belongs to.
pub open spec fn graph_key(g: PreparedLocalCfgModel) -> (Seq<char>, Seq<char>) {
    (g.support.member_alias, g.payload.owner_symbol_identity)
}

/// The parts of a key.
pub open spec fn key_parts(key: (Seq<char>, Seq<char>)) -> Seq<PartModel> {
    seq![PartModel::Text(key.0), PartModel::Text(key.1)]
}

fn parts_of_key(member_alias: &str, owner_symbol_identity: &str) -> (r: Vec<Part>)
    ensures
        r.deep_view() == key_parts((member_alias@, owner_symbol_identity@)),
{
    let r = vec![
        Part::Text(member_alias.to_owned()),
        Part::Text(owner_symbol_identity.to_owned()),
    ];
    assert(r.deep_view() =~= key_parts((member_alias@, owner_symbol_identity@)));
    r
}

impl Ordered for PreparedLocalCfg {
    open spec fn parts(v: PreparedLocalCfgModel) -> Seq<PartModel> {
        key_parts(graph_key(v))
    }

    fn to_parts(&self) -> (r: Vec<Part>) {
        parts_of_key(
            self.support.member_alias.as_str(),
            self.payload.owner_symbol_identity.as_str(),
        )
    }
}

/// The graphs of a table by their keys.
pub open spec fn graphs_by_key(t: Seq<PreparedLocalCfgModel>) -> Map<
    (Seq<char>, Seq<char>),
    PreparedLocalCfgModel,
> {
    Map::new(
        |key: (Seq<char>, Seq<char>)|
            order::record_at::<PreparedLocalCfg>(t, key_parts(key)) is Some,
        |key: (Seq<char>, Seq<char>)|
            order::record_at::<PreparedLocalCfg>(t, key_parts(key)).unwrap(),
    )
}

proof fn keys_have_their_parts(a: (Seq<char>, Seq<char>), b: (Seq<char>, Seq<char>))
    ensures
        key_parts(a) == key_parts(b) ==> a == b,
{
    if key_parts(a) == key_parts(b) {
        assert(key_parts(a)[0] == key_parts(b)[0]);
        assert(key_parts(a)[1] == key_parts(b)[1]);
    }
}

/// The graphs of some callables, by member and callable: a table in the order of their keys
/// that holds only graphs that are fit.
#[derive(Debug, PartialEq, Eq)]
pub struct LocalCfgCatalog {
    graphs: Vec<PreparedLocalCfg>,
}

impl Clone for LocalCfgCatalog {
    fn clone(&self) -> (r: LocalCfgCatalog)
        ensures
            r@ == self@,
    {
        proof {
            use_type_invariant(self);
        }
        LocalCfgCatalog { graphs: self.graphs.copied() }
    }
}

impl View for LocalCfgCatalog {
    type V = Map<(Seq<char>, Seq<char>), PreparedLocalCfgModel>;

    closed spec fn view(&self) -> Map<(Seq<char>, Seq<char>), PreparedLocalCfgModel> {
        graphs_by_key(self.graphs.deep_view())
    }
}

impl Default for LocalCfgCatalog {
    fn default() -> (r: LocalCfgCatalog)
        ensures
            r@ == Map::<(Seq<char>, Seq<char>), PreparedLocalCfgModel>::empty(),
    {
        let r = LocalCfgCatalog { graphs: Vec::new() };
        assert(r.graphs.deep_view() =~= Seq::empty());
        assert(r@ =~= Map::empty());
        r
    }
}

/// The outcome of adding a graph to a catalog.
pub open spec fn inserted(
    catalog: Map<(Seq<char>, Seq<char>), PreparedLocalCfgModel>,
    graph: PreparedLocalCfgModel,
) -> Result<(), ErrorModel> {
    match validated(graph.payload) {
        Err(e) => Err(e),
        Ok(_) => if graph.support.payload_ref.object_schema != LOCAL_CFG_PAYLOAD_SCHEMA@ {
            corrupted("local CFG payload has another CAS schema"@)
        } else if catalog.dom().contains(graph_key(graph)) {
            corrupted("local CFG owner is duplicated in one member"@)
        } else {
            Ok(())
        },
    }
}

/// Whether a graph is fit to stand in a catalog.
pub open spec fn is_admissible(graph: PreparedLocalCfgModel) -> bool {
    validated(graph.payload) is Ok && graph.support.payload_ref.object_schema
        == LOCAL_CFG_PAYLOAD_SCHEMA@
}

impl LocalCfgCatalog {
    #[verifier::type_invariant]
    spec fn well_formed(self) -> bool {
        &&& order::is_table::<PreparedLocalCfg>(self.graphs.deep_view())
        &&& forall|i: int|
            0 <= i < self.graphs.deep_view().len() ==> is_admissible(
                #[trigger] self.graphs.deep_view()[i],
            )
    }

    /// Adds a graph. A graph that is fit is kept under its key even where one
    /// stood there before, which is reported.
    pub fn insert(&mut self, graph: PreparedLocalCfg) -> (r: Result<(), ClewError>)
        ensures
            outcome(r) == inserted(old(self)@, graph.deep_view()),
            final(self)@ == if is_admissible(graph.deep_view()) {
                old(self)@.insert(graph_key(graph.deep_view()), graph.deep_view())
            } else {
                old(self)@
            },
    {
        validate(&graph.payload)?;
        if !same_text(
            graph.support.payload_ref.object_schema.as_str(),
            LOCAL_CFG_PAYLOAD_SCHEMA,
        ) {
            return Err(corrupt("local CFG payload has another CAS schema"));
        }
        let duplicated = self.get(
            graph.support.member_alias.as_str(),
            graph.payload.owner_symbol_identity.as_str(),
        ).is_some();
        proof {
            use_type_invariant(&*self);
        }
        let ghost before = self.graphs.deep_view();
        let ghost added = graph.deep_view();
        let mut graphs: Vec<PreparedLocalCfg> = Vec::new();
        assert(graphs.deep_view() =~= Seq::empty());
        std::mem::swap(&mut graphs, &mut self.graphs);
        order::replace(&mut graphs, graph);
        let ghost after = graphs.deep_view();
        proof {
            order::replaced_keeps_table::<PreparedLocalCfg>(before, added);
            assert forall|i: int| 0 <= i < after.len() implies is_admissible(
                #[trigger] after[i],
            ) by {
                if after[i] != added {
                    let k = choose|k: int| 0 <= k < before.len() && before[k] == after[i];
                    assert(is_admissible(before[k]));
                }
            }
            assert forall|key: (Seq<char>, Seq<char>)| key != graph_key(added) implies #[trigger]
                order::record_at::<PreparedLocalCfg>(after, key_parts(key))
                == order::record_at::<PreparedLocalCfg>(before, key_parts(key)) by {
                keys_have_their_parts(key, graph_key(added));
            }
            assert(graphs_by_key(after) =~= graphs_by_key(before).insert(
                graph_key(added),
                added,
            ));
        }
        self.graphs = graphs;
        if duplicated {
            return Err(corrupt("local CFG owner is duplicated in one member"));
        }
        Ok(())
    }

    /// The graph of a callable in a member. It is fit, and of that callable and member.
    pub fn get(&self, member_alias: &str, owner_symbol_identity: &str) -> (r: Option<
        &PreparedLocalCfg,
    >)
        ensures
            match r {
                Some(g) => {
                    &&& self@.dom().contains((member_alias@, owner_symbol_identity@))
                    &&& self@[(member_alias@, owner_symbol_identity@)] == g.deep_view()
                    &&& is_admissible(g.deep_view())
                    &&& graph_key(g.deep_view()) == (member_alias@, owner_symbol_identity@)
                },
                None => !self@.dom().contains((member_alias@, owner_symbol_identity@)),
            },
    {
        proof {
            use_type_invariant(self);
            let t = self.graphs.deep_view();
            let key = (member_alias@, owner_symbol_identity@);
            order::record_has_its_key::<PreparedLocalCfg>(t, key_parts(key));
            if let Some(g) = order::record_at::<PreparedLocalCfg>(t, key_parts(key)) {
                let k = choose|k: int| 0 <= k < t.len() && t[k] == g;
                assert(is_admissible(t[k]));
                keys_have_their_parts(graph_key(g), key);
            }
        }
        order::find_record(&self.graphs, &parts_of_key(member_alias, owner_symbol_identity))
    }

    /// Whether there is no graph.
    pub fn is_empty(&self) -> (r: bool)
        ensures
            r == (self@ == Map::<(Seq<char>, Seq<char>), PreparedLocalCfgModel>::empty()),
    {
        let ghost m = self.graphs.deep_view();
        let r = self.graphs.len() == 0;
        proof {
            if m.len() > 0 {
                let key = graph_key(m[0]);
                assert(order::record_at::<PreparedLocalCfg>(m, key_parts(key)) == Some(m[0]));
                assert(self@.dom().contains(key));
            } else {
                assert(self@ =~= Map::empty());
            }
        }
        r
    }
}

/// Whether every graph of a catalog is fit.
pub open spec fn all_admissible(
    catalog: Map<(Seq<char>, Seq<char>), PreparedLocalCfgModel>,
) -> bool {
    forall|key: (Seq<char>, Seq<char>)| #[trigger]
        catalog.dom().contains(key) ==> is_admissible(catalog[key]) && graph_key(catalog[key])
            == key
}

/// The empty catalog holds only fit graphs under their own keys, and adding a
/// graph keeps it so.
pub proof fn insertion_keeps_catalog_admissible(
    catalog: Map<(Seq<char>, Seq<char>), PreparedLocalCfgModel>,
    graph: PreparedLocalCfgModel,
)
    requires
        all_admissible(catalog),
    ensures
        all_admissible(Map::<(Seq<char>, Seq<char>), PreparedLocalCfgModel>::empty()),
        all_admissible(
            if is_admissible(graph) {
                catalog.insert(graph_key(graph), graph)
            } else {
                catalog
            },
        ),
{
}

/// What a catalog gives after a graph was added: the graph itself under its key, and under
/// every other key what it gave before.
pub proof fn added_graphs_are_found(
    catalog: Map<(Seq<char>, Seq<char>), PreparedLocalCfgModel>,
    graph: PreparedLocalCfgModel,
    after: Map<(Seq<char>, Seq<char>), PreparedLocalCfgModel>,
    other: (Seq<char>, Seq<char>),
)
    requires
        inserted(catalog, graph) is Ok,
        after == if is_admissible(graph) {
            catalog.insert(graph_key(graph), graph)
        } else {
            catalog
        },
    ensures
        after.dom().contains(graph_key(graph)) && after[graph_key(graph)] == graph,
        other != graph_key(graph) ==> after.dom().contains(other) == catalog.dom().contains(other),
        other != graph_key(graph) && catalog.dom().contains(other) ==> after[other]
            == catalog[other],
{
}

/// A key that a boundary may have.
pub open spec fn is_boundary_key(k: Seq<char>) -> bool {
    ||| k == "schema"@
    ||| k == "file"@
    ||| k == "ownerSymbolIdentity"@
    ||| k == "compilerGraphName"@
    ||| k == "stage"@
    ||| k == "code"@
    ||| k == "resolution"@
    ||| k == "provider"@
    ||| k == "sourceProvenance"@
    ||| k == "rawRowHash"@
}

fn boundary_key(k: &str) -> (r: bool)
    ensures
        r == is_boundary_key(k@),
{
    same_text(k, "schema") || same_text(k, "file") || same_text(k, "ownerSymbolIdentity")
        || same_text(k, "compilerGraphName") || same_text(k, "stage") || same_text(k, "code")
        || same_text(k, "resolution") || same_text(k, "provider") || same_text(
        k,
        "sourceProvenance",
    ) || same_text(k, "rawRowHash")
}

/// A code that the worker gives.
pub open spec fn is_worker_code(c: Seq<char>) -> bool {
    ||| c == "INVALID_LOCAL_CFG_IDENTITY"@
    ||| c == "UNSUPPORTED_LOCAL_CFG_NODE"@
    ||| c == "UNSUPPORTED_LOCAL_CFG_EDGE"@
    ||| c == "LOCAL_CFG_BUDGET_EXCEEDED"@
    ||| c == "INVALID_LOCAL_CFG_TOPOLOGY"@
    ||| c == "NO_SOURCE_FUNCTION"@
    ||| c == "LOCAL_CFG_NORMALIZATION_FAILED"@
    ||| c == "DUPLICATE_LOCAL_CFG_OWNER"@
}

fn worker_code(c: &str) -> (r: bool)
    ensures
        r == is_worker_code(c@),
{
    same_text(c, "INVALID_LOCAL_CFG_IDENTITY") || same_text(c, "UNSUPPORTED_LOCAL_CFG_NODE")
        || same_text(c, "UNSUPPORTED_LOCAL_CFG_EDGE") || same_text(c, "LOCAL_CFG_BUDGET_EXCEEDED")
        || same_text(c, "INVALID_LOCAL_CFG_TOPOLOGY") || same_text(c, "NO_SOURCE_FUNCTION")
        || same_text(c, "LOCAL_CFG_NORMALIZATION_FAILED") || same_text(
        c,
        "DUPLICATE_LOCAL_CFG_OWNER",
    )
}

/// A code that the admission normalizer gives.
pub open spec fn is_normalizer_code(c: Seq<char>) -> bool {
    c == "INVALID_LOCAL_CFG"@ || c == "UNPROVEN_LOCAL_CFG_OWNER"@
}

fn normalizer_code(c: &str) -> (r: bool)
    ensures
        r == is_normalizer_code(c@),
{
    same_text(c, "INVALID_LOCAL_CFG") || same_text(c, "UNPROVEN_LOCAL_CFG_OWNER")
}

/// Whether the provider of a boundary is the one that gives its code.
pub open spec fn provider_gives_code(
    provider: Option<Seq<char>>,
    code: Option<Seq<char>>,
) -> bool {
    match (provider, code) {
        (Some(p), Some(c)) => {
            ||| p == "K2_FIR_CFG"@ && is_worker_code(c) && !is_normalizer_code(c)
            ||| p == "CODECLEW_LOCAL_CFG_NORMALIZER"@ && !is_worker_code(c) && is_normalizer_code(
                c,
            )
        },
        _ => false,
    }
}

fn provided(provider: Option<&String>, code: Option<&String>) -> (r: bool)
    ensures
        r == provider_gives_code(provider.deep_view(), code.deep_view()),
{
    match (provider, code) {
        (Some(p), Some(c)) => {
            let p = p.as_str();
            let c = c.as_str();
            let worker = worker_code(c);
            let normalizer = normalizer_code(c);
            (same_text(p, "K2_FIR_CFG") && worker && !normalizer) || (same_text(
                p,
                "CODECLEW_LOCAL_CFG_NORMALIZER",
            ) && !worker && normalizer)
        },
        _ => false,
    }
}

/// Whether a member holds a given string.
pub open spec fn str_is(value: JsonModel, key: Seq<char>, text: Seq<char>) -> bool {
    value.str_at(key) == Some(text)
}

fn member_is(value: &Json, key: &str, text: &str) -> (r: bool)
    ensures
        r == str_is(value.deep_view(), key@, text@),
{
    match value.str_at(key) {
        Some(s) => same_text(s.as_str(), text),
        None => false,
    }
}

/// The outcome for the file of a boundary.
pub open spec fn boundary_file_checked(value: JsonModel) -> Result<(), ErrorModel> {
    match value.str_at("file"@) {
        Some(file) => match text_checked(file, "local CFG boundary file"@, MAX_CFG_PATH_BYTES) {
            Err(e) => Err(e),
            Ok(_) => if file.contains('\\') || !is_relative_path(file) {
                refused("local CFG boundary file is not repository-relative"@)
            } else {
                Ok(())
            },
        },
        None => if value.get("file"@) is Some {
            refused("local CFG boundary file is malformed"@)
        } else {
            Ok(())
        },
    }
}

/// The outcome for the owner of a boundary.
pub open spec fn boundary_owner_checked(value: JsonModel) -> Result<(), ErrorModel> {
    match value.str_at("ownerSymbolIdentity"@) {
        Some(owner) => full_symbol_checked(owner),
        None => if value.get("ownerSymbolIdentity"@) is Some {
            refused("local CFG boundary owner is malformed"@)
        } else {
            Ok(())
        },
    }
}

/// The outcome for the graph name of a boundary.
pub open spec fn boundary_name_checked(value: JsonModel) -> Result<(), ErrorModel> {
    match value.str_at("compilerGraphName"@) {
        Some(name) => text_checked(
            name,
            "local CFG boundary compiler graph name"@,
            MAX_CFG_TEXT_BYTES,
        ),
        None => if value.get("compilerGraphName"@) is Some {
            refused("local CFG boundary compiler graph name is malformed"@)
        } else {
            Ok(())
        },
    }
}

/// The outcome of the validation of a boundary.
pub open spec fn boundary_validated(value: JsonModel) -> Result<(), ErrorModel> {
    match value {
        JsonModel::Obj(members) => if exists|i: int|
            0 <= i < members.len() && !is_boundary_key(#[trigger] members[i].0) {
            refused("local CFG boundary has a field outside its exact contract"@)
        } else if !str_is(value, "schema"@, LOCAL_CFG_BOUNDARY_SCHEMA@) || !str_is(
            value,
            "stage"@,
            "NORMALIZE"@,
        ) || !str_is(value, "resolution"@, "UNKNOWN"@) || !str_is(
            value,
            "sourceProvenance"@,
            "COMPILER_UTF16_RANGE_TO_UTF8_BYTES"@,
        ) || !provider_gives_code(value.str_at("provider"@), value.str_at("code"@)) {
            refused("malformed local CFG UNKNOWN boundary"@)
        } else {
            match value.str_at("rawRowHash"@) {
                None => refused("local CFG boundary has no raw row hash"@),
                Some(raw_hash) => if !is_digest(raw_hash) {
                    refused("local CFG boundary raw row hash is invalid"@)
                } else {
                    match boundary_file_checked(value) {
                        Err(e) => Err(e),
                        Ok(_) => match boundary_owner_checked(value) {
                            Err(e) => Err(e),
                            Ok(_) => boundary_name_checked(value),
                        },
                    }
                },
            }
        },
        _ => refused("local CFG boundary is not an object"@),
    }
}

fn check_boundary_file(value: &Json) -> (r: Result<(), ClewError>)
    ensures
        outcome(r) == boundary_file_checked(value.deep_view()),
{
    match value.str_at("file") {
        Some(file) => {
            validate_text(file.as_str(), "local CFG boundary file", MAX_CFG_PATH_BYTES)?;
            if contains_char(file.as_str(), '\\') || !relative_path(file.as_str()) {
                return Err(invalid("local CFG boundary file is not repository-relative"));
            }
            Ok(())
        },
        None => if value.get("file").is_some() {
            Err(invalid("local CFG boundary file is malformed"))
        } else {
            Ok(())
        },
    }
}

fn check_boundary_owner(value: &Json) -> (r: Result<(), ClewError>)
    ensures
        outcome(r) == boundary_owner_checked(value.deep_view()),
{
    match value.str_at("ownerSymbolIdentity") {
        Some(owner) => validate_kotlin_full_symbol_identity(owner.as_str()),
        None => if value.get("ownerSymbolIdentity").is_some() {
            Err(invalid("local CFG boundary owner is malformed"))
        } else {
            Ok(())
        },
    }
}

fn check_boundary_name(value: &Json) -> (r: Result<(), ClewError>)
    ensures
        outcome(r) == boundary_name_checked(value.deep_view()),
{
    match value.str_at("compilerGraphName") {
        Some(name) => validate_text(
            name.as_str(),
            "local CFG boundary compiler graph name",
            MAX_CFG_TEXT_BYTES,
        ),
        None => if value.get("compilerGraphName").is_some() {
            Err(invalid("local CFG boundary compiler graph name is malformed"))
        } else {
            Ok(())
        },
    }
}

/// Whether all keys of an object are keys that a boundary may have.
fn keys_allowed(members: &Vec<(String, Json)>) -> (r: bool)
    ensures
        r == !(exists|i: int|
            0 <= i < members@.len() && !is_boundary_key(
                #[trigger] crate::json::member_models(members@)[i].0,
            )),
{
    let ghost m = crate::json::member_models(members@);
    let mut i: usize = 0;
    while i < members.len()
        invariant
            i <= members.len(),
            m == crate::json::member_models(members@),
            forall|k: int| 0 <= k < i ==> is_boundary_key(#[trigger] m[k].0),
        decreases members.len() - i,
    {
        if !boundary_key(members[i].0.as_str()) {
            assert(!is_boundary_key(m[i as int].0));
            return false;
        }
        i = i + 1;
    }
    true
}

/// Validates a typed unknown boundary. A boundary carries no graph and so cannot
/// be taken for one.
pub fn validate_boundary(value: &Json) -> (r: Result<(), ClewError>)
    ensures
        outcome(r) == boundary_validated(value.deep_view()),
{
    match value {
        Json::Obj(members) => {
            proof {
                crate::json::model_of_object(*members);
            }
            if !keys_allowed(members) {
                return Err(invalid("local CFG boundary has a field outside its exact contract"));
            }
        },
        _ => {
            return Err(invalid("local CFG boundary is not an object"));
        },
    }
    if !member_is(value, "schema", LOCAL_CFG_BOUNDARY_SCHEMA) || !member_is(
        value,
        "stage",
        "NORMALIZE",
    ) || !member_is(value, "resolution", "UNKNOWN") || !member_is(
        value,
        "sourceProvenance",
        "COMPILER_UTF16_RANGE_TO_UTF8_BYTES",
    ) || !provided(value.str_at("provider"), value.str_at("code")) {
        return Err(invalid("malformed local CFG UNKNOWN boundary"));
    }
    match value.str_at("rawRowHash") {
        None => Err(invalid("local CFG boundary has no raw row hash")),
        Some(raw_hash) => {
            if !sha256_digest(raw_hash.as_str()) {
                return Err(invalid("local CFG boundary raw row hash is invalid"));
            }
            check_boundary_file(value)?;
            check_boundary_owner(value)?;
            check_boundary_name(value)
        },
    }
}
} // verus!
