//! Edits of a repository: what they are asked on, what they change, and the
//! transactions that carry them.

use vstd::prelude::*;
use vstd::string::*;

use crate::json::{Json, JsonModel};
use crate::order::{Ordered, Part, PartModel};
use crate::record::Record;
use crate::table::Keyed;

verus! {

/// The build system of a project.
#[derive(Clone, Copy, Debug, PartialEq, Eq, Structural)]
pub enum BuildSystem {
    Gradle,
    Maven,
}

impl DeepView for BuildSystem {
    type V = BuildSystem;

    open spec fn deep_view(&self) -> BuildSystem {
        *self
    }
}

impl BuildSystem {
    /// The name that is written for a value.
    pub open spec fn name(self) -> Seq<char> {
        match self {
            BuildSystem::Gradle => "GRADLE"@,
            BuildSystem::Maven => "MAVEN"@,
        }
    }
}

impl Record for BuildSystem {
    open spec fn json(v: BuildSystem) -> JsonModel {
        JsonModel::Str(v.name())
    }

    fn copied(&self) -> (r: BuildSystem) {
        *self
    }

    fn same_as(&self, other: &BuildSystem) -> (r: bool) {
        *self == *other
    }

    fn to_json(&self) -> (r: Json) {
        let name = match self {
            BuildSystem::Gradle => "GRADLE",
            BuildSystem::Maven => "MAVEN",
        };
        Json::Str(name.to_owned())
    }
}

/// What a slice was taken of.
#[derive(Debug, PartialEq, Eq)]
pub struct Snapshot {
    pub base_revision: String,
    pub project_model_hash: String,
    pub compiler_version: String,
    pub build_system: BuildSystem,
    pub build_launcher: String,
    pub index_snapshot: String,
    pub compilation: String,
    pub compile_task: String,
    pub test_tasks: Vec<String>,
}

/// The model of a [`Snapshot`].
pub struct SnapshotModel {
    pub base_revision: Seq<char>,
    pub project_model_hash: Seq<char>,
    pub compiler_version: Seq<char>,
    pub build_system: BuildSystem,
    pub build_launcher: Seq<char>,
    pub index_snapshot: Seq<char>,
    pub compilation: Seq<char>,
    pub compile_task: Seq<char>,
    pub test_tasks: Seq<Seq<char>>,
}

impl DeepView for Snapshot {
    type V = SnapshotModel;

    open spec fn deep_view(&self) -> SnapshotModel {
        SnapshotModel {
            base_revision: self.base_revision.deep_view(),
            project_model_hash: self.project_model_hash.deep_view(),
            compiler_version: self.compiler_version.deep_view(),
            build_system: self.build_system.deep_view(),
            build_launcher: self.build_launcher.deep_view(),
            index_snapshot: self.index_snapshot.deep_view(),
            compilation: self.compilation.deep_view(),
            compile_task: self.compile_task.deep_view(),
            test_tasks: self.test_tasks.deep_view(),
        }
    }
}

impl Record for Snapshot {
    open spec fn json(v: SnapshotModel) -> JsonModel {
        JsonModel::object()
            .with("baseRevision"@, <String as Record>::json(v.base_revision))
            .with("projectModelHash"@, <String as Record>::json(v.project_model_hash))
            .with("compilerVersion"@, <String as Record>::json(v.compiler_version))
            .with("buildSystem"@, <BuildSystem as Record>::json(v.build_system))
            .with("buildLauncher"@, <String as Record>::json(v.build_launcher))
            .with("indexSnapshot"@, <String as Record>::json(v.index_snapshot))
            .with("compilation"@, <String as Record>::json(v.compilation))
            .with("compileTask"@, <String as Record>::json(v.compile_task))
            .with("testTasks"@, <Vec<String> as Record>::json(v.test_tasks))
    }

    fn copied(&self) -> (r: Snapshot) {
        Snapshot {
            base_revision: self.base_revision.copied(),
            project_model_hash: self.project_model_hash.copied(),
            compiler_version: self.compiler_version.copied(),
            build_system: self.build_system.copied(),
            build_launcher: self.build_launcher.copied(),
            index_snapshot: self.index_snapshot.copied(),
            compilation: self.compilation.copied(),
            compile_task: self.compile_task.copied(),
            test_tasks: self.test_tasks.copied(),
        }
    }

    fn same_as(&self, other: &Snapshot) -> (r: bool) {
        self.base_revision.same_as(&other.base_revision)
            && self.project_model_hash.same_as(&other.project_model_hash)
            && self.compiler_version.same_as(&other.compiler_version)
            && self.build_system.same_as(&other.build_system)
            && self.build_launcher.same_as(&other.build_launcher)
            && self.index_snapshot.same_as(&other.index_snapshot)
            && self.compilation.same_as(&other.compilation)
            && self.compile_task.same_as(&other.compile_task)
            && self.test_tasks.same_as(&other.test_tasks)
    }

    fn to_json(&self) -> (r: Json) {
        Json::object()
            .with("baseRevision", self.base_revision.to_json())
            .with("projectModelHash", self.project_model_hash.to_json())
            .with("compilerVersion", self.compiler_version.to_json())
            .with("buildSystem", self.build_system.to_json())
            .with("buildLauncher", self.build_launcher.to_json())
            .with("indexSnapshot", self.index_snapshot.to_json())
            .with("compilation", self.compilation.to_json())
            .with("compileTask", self.compile_task.to_json())
            .with("testTasks", self.test_tasks.to_json())
    }
}

/// Something that a slice read.
#[derive(Debug, PartialEq, Eq)]
pub struct ReadFact {
    pub kind: String,
    pub key: String,
    pub hash: String,
}

/// The model of a [`ReadFact`].
pub struct ReadFactModel {
    pub kind: Seq<char>,
    pub key: Seq<char>,
    pub hash: Seq<char>,
}

impl DeepView for ReadFact {
    type V = ReadFactModel;

    open spec fn deep_view(&self) -> ReadFactModel {
        ReadFactModel {
            kind: self.kind.deep_view(),
            key: self.key.deep_view(),
            hash: self.hash.deep_view(),
        }
    }
}

impl Record for ReadFact {
    open spec fn json(v: ReadFactModel) -> JsonModel {
        JsonModel::object()
            .with("kind"@, <String as Record>::json(v.kind))
            .with("key"@, <String as Record>::json(v.key))
            .with("hash"@, <String as Record>::json(v.hash))
    }

    fn copied(&self) -> (r: ReadFact) {
        ReadFact {
            kind: self.kind.copied(),
            key: self.key.copied(),
            hash: self.hash.copied(),
        }
    }

    fn same_as(&self, other: &ReadFact) -> (r: bool) {
        self.kind.same_as(&other.kind)
            && self.key.same_as(&other.key)
            && self.hash.same_as(&other.hash)
    }

    fn to_json(&self) -> (r: Json) {
        Json::object()
            .with("kind", self.kind.to_json())
            .with("key", self.key.to_json())
            .with("hash", self.hash.to_json())
    }
}

/// Something that an edit changes.
#[derive(Debug, PartialEq, Eq)]
pub struct WriteFact {
    pub kind: String,
    pub key: String,
    pub before_hash: String,
    pub after_hash: String,
}

/// The model of a [`WriteFact`].
pub struct WriteFactModel {
    pub kind: Seq<char>,
    pub key: Seq<char>,
    pub before_hash: Seq<char>,
    pub after_hash: Seq<char>,
}

impl DeepView for WriteFact {
    type V = WriteFactModel;

    open spec fn deep_view(&self) -> WriteFactModel {
        WriteFactModel {
            kind: self.kind.deep_view(),
            key: self.key.deep_view(),
            before_hash: self.before_hash.deep_view(),
            after_hash: self.after_hash.deep_view(),
        }
    }
}

impl Record for WriteFact {
    open spec fn json(v: WriteFactModel) -> JsonModel {
        JsonModel::object()
            .with("kind"@, <String as Record>::json(v.kind))
            .with("key"@, <String as Record>::json(v.key))
            .with("beforeHash"@, <String as Record>::json(v.before_hash))
            .with("afterHash"@, <String as Record>::json(v.after_hash))
    }

    fn copied(&self) -> (r: WriteFact) {
        WriteFact {
            kind: self.kind.copied(),
            key: self.key.copied(),
            before_hash: self.before_hash.copied(),
            after_hash: self.after_hash.copied(),
        }
    }

    fn same_as(&self, other: &WriteFact) -> (r: bool) {
        self.kind.same_as(&other.kind)
            && self.key.same_as(&other.key)
            && self.before_hash.same_as(&other.before_hash)
            && self.after_hash.same_as(&other.after_hash)
    }

    fn to_json(&self) -> (r: Json) {
        Json::object()
            .with("kind", self.kind.to_json())
            .with("key", self.key.to_json())
            .with("beforeHash", self.before_hash.to_json())
            .with("afterHash", self.after_hash.to_json())
    }
}

/// Something that an edit may change.
#[derive(Debug, PartialEq, Eq)]
pub struct ExpectedWriteFact {
    pub kind: String,
    pub key: String,
}

/// The model of a [`ExpectedWriteFact`].
pub struct ExpectedWriteFactModel {
    pub kind: Seq<char>,
    pub key: Seq<char>,
}

impl DeepView for ExpectedWriteFact {
    type V = ExpectedWriteFactModel;

    open spec fn deep_view(&self) -> ExpectedWriteFactModel {
        ExpectedWriteFactModel {
            kind: self.kind.deep_view(),
            key: self.key.deep_view(),
        }
    }
}

impl Record for ExpectedWriteFact {
    open spec fn json(v: ExpectedWriteFactModel) -> JsonModel {
        JsonModel::object()
            .with("kind"@, <String as Record>::json(v.kind))
            .with("key"@, <String as Record>::json(v.key))
    }

    fn copied(&self) -> (r: ExpectedWriteFact) {
        ExpectedWriteFact {
            kind: self.kind.copied(),
            key: self.key.copied(),
        }
    }

    fn same_as(&self, other: &ExpectedWriteFact) -> (r: bool) {
        self.kind.same_as(&other.kind)
            && self.key.same_as(&other.key)
    }

    fn to_json(&self) -> (r: Json) {
        Json::object()
            .with("kind", self.kind.to_json())
            .with("key", self.key.to_json())
    }
}

impl Ordered for ReadFact {
    open spec fn parts(v: ReadFactModel) -> Seq<PartModel> {
        seq![PartModel::Text(v.kind), PartModel::Text(v.key), PartModel::Text(v.hash)]
    }

    fn to_parts(&self) -> (r: Vec<Part>) {
        let r = vec![Part::Text(self.kind.clone()), Part::Text(self.key.clone()), Part::Text(self.hash.clone())];
        assert(r.deep_view() =~= seq![PartModel::Text(self.kind@), PartModel::Text(self.key@), PartModel::Text(self.hash@)]);
        r
    }
}

impl Ordered for WriteFact {
    open spec fn parts(v: WriteFactModel) -> Seq<PartModel> {
        seq![PartModel::Text(v.kind), PartModel::Text(v.key), PartModel::Text(v.before_hash), PartModel::Text(v.after_hash)]
    }

    fn to_parts(&self) -> (r: Vec<Part>) {
        let r = vec![Part::Text(self.kind.clone()), Part::Text(self.key.clone()), Part::Text(self.before_hash.clone()), Part::Text(self.after_hash.clone())];
        assert(r.deep_view() =~= seq![PartModel::Text(self.kind@), PartModel::Text(self.key@), PartModel::Text(self.before_hash@), PartModel::Text(self.after_hash@)]);
        r
    }
}

impl Ordered for ExpectedWriteFact {
    open spec fn parts(v: ExpectedWriteFactModel) -> Seq<PartModel> {
        seq![PartModel::Text(v.kind), PartModel::Text(v.key)]
    }

    fn to_parts(&self) -> (r: Vec<Part>) {
        let r = vec![Part::Text(self.kind.clone()), Part::Text(self.key.clone())];
        assert(r.deep_view() =~= seq![PartModel::Text(self.kind@), PartModel::Text(self.key@)]);
        r
    }
}

/// A slice of a program. What it holds of nodes, edges and summaries is kept as it was
/// given.
#[derive(Debug, PartialEq, Eq)]
pub struct ThreadIr {
    pub schema: String,
    pub thread_id: String,
    pub snapshot: Snapshot,
    pub seed: Json,
    pub policy: Json,
    pub completeness: Json,
    pub nodes: Vec<Json>,
    pub edges: Vec<Json>,
    pub editable_units: Vec<Json>,
    pub external_summaries: Vec<Json>,
    pub read_set: Vec<ReadFact>,
    pub validation_plan: Vec<Json>,
}

/// The model of a [`ThreadIr`].
pub struct ThreadIrModel {
    pub schema: Seq<char>,
    pub thread_id: Seq<char>,
    pub snapshot: SnapshotModel,
    pub seed: JsonModel,
    pub policy: JsonModel,
    pub completeness: JsonModel,
    pub nodes: Seq<JsonModel>,
    pub edges: Seq<JsonModel>,
    pub editable_units: Seq<JsonModel>,
    pub external_summaries: Seq<JsonModel>,
    pub read_set: Seq<ReadFactModel>,
    pub validation_plan: Seq<JsonModel>,
}

impl DeepView for ThreadIr {
    type V = ThreadIrModel;

    open spec fn deep_view(&self) -> ThreadIrModel {
        ThreadIrModel {
            schema: self.schema.deep_view(),
            thread_id: self.thread_id.deep_view(),
            snapshot: self.snapshot.deep_view(),
            seed: self.seed.deep_view(),
            policy: self.policy.deep_view(),
            completeness: self.completeness.deep_view(),
            nodes: self.nodes.deep_view(),
            edges: self.edges.deep_view(),
            editable_units: self.editable_units.deep_view(),
            external_summaries: self.external_summaries.deep_view(),
            read_set: self.read_set.deep_view(),
            validation_plan: self.validation_plan.deep_view(),
        }
    }
}

impl Record for ThreadIr {
    open spec fn json(v: ThreadIrModel) -> JsonModel {
        JsonModel::object()
            .with("schema"@, <String as Record>::json(v.schema))
            .with("threadId"@, <String as Record>::json(v.thread_id))
            .with("snapshot"@, <Snapshot as Record>::json(v.snapshot))
            .with("seed"@, <Json as Record>::json(v.seed))
            .with("policy"@, <Json as Record>::json(v.policy))
            .with("completeness"@, <Json as Record>::json(v.completeness))
            .with("nodes"@, <Vec<Json> as Record>::json(v.nodes))
            .with("edges"@, <Vec<Json> as Record>::json(v.edges))
            .with("editableUnits"@, <Vec<Json> as Record>::json(v.editable_units))
            .with("externalSummaries"@, <Vec<Json> as Record>::json(v.external_summaries))
            .with("readSet"@, <Vec<ReadFact> as Record>::json(v.read_set))
            .with("validationPlan"@, <Vec<Json> as Record>::json(v.validation_plan))
    }

    fn copied(&self) -> (r: ThreadIr) {
        ThreadIr {
            schema: self.schema.copied(),
            thread_id: self.thread_id.copied(),
            snapshot: self.snapshot.copied(),
            seed: self.seed.copied(),
            policy: self.policy.copied(),
            completeness: self.completeness.copied(),
            nodes: self.nodes.copied(),
            edges: self.edges.copied(),
            editable_units: self.editable_units.copied(),
            external_summaries: self.external_summaries.copied(),
            read_set: self.read_set.copied(),
            validation_plan: self.validation_plan.copied(),
        }
    }

    fn same_as(&self, other: &ThreadIr) -> (r: bool) {
        self.schema.same_as(&other.schema)
            && self.thread_id.same_as(&other.thread_id)
            && self.snapshot.same_as(&other.snapshot)
            && self.seed.same_as(&other.seed)
            && self.policy.same_as(&other.policy)
            && self.completeness.same_as(&other.completeness)
            && self.nodes.same_as(&other.nodes)
            && self.edges.same_as(&other.edges)
            && self.editable_units.same_as(&other.editable_units)
            && self.external_summaries.same_as(&other.external_summaries)
            && self.read_set.same_as(&other.read_set)
            && self.validation_plan.same_as(&other.validation_plan)
    }

    fn to_json(&self) -> (r: Json) {
        Json::object()
            .with("schema", self.schema.to_json())
            .with("threadId", self.thread_id.to_json())
            .with("snapshot", self.snapshot.to_json())
            .with("seed", self.seed.to_json())
            .with("policy", self.policy.to_json())
            .with("completeness", self.completeness.to_json())
            .with("nodes", self.nodes.to_json())
            .with("edges", self.edges.to_json())
            .with("editableUnits", self.editable_units.to_json())
            .with("externalSummaries", self.external_summaries.to_json())
            .with("readSet", self.read_set.to_json())
            .with("validationPlan", self.validation_plan.to_json())
    }
}

impl Keyed for ThreadIr {
    open spec fn key(v: ThreadIrModel) -> Seq<char> {
        v.thread_id
    }

    fn key_text(&self) -> (r: &String) {
        &self.thread_id
    }
}

/// What an edit puts in place.
#[derive(Debug, PartialEq, Eq)]
pub struct Replacement {
    pub kotlin: String,
}

/// The model of a [`Replacement`].
pub struct ReplacementModel {
    pub kotlin: Seq<char>,
}

impl DeepView for Replacement {
    type V = ReplacementModel;

    open spec fn deep_view(&self) -> ReplacementModel {
        ReplacementModel {
            kotlin: self.kotlin.deep_view(),
        }
    }
}

impl Record for Replacement {
    open spec fn json(v: ReplacementModel) -> JsonModel {
        JsonModel::object()
            .with("kotlin"@, <String as Record>::json(v.kotlin))
    }

    fn copied(&self) -> (r: Replacement) {
        Replacement {
            kotlin: self.kotlin.copied(),
        }
    }

    fn same_as(&self, other: &Replacement) -> (r: bool) {
        self.kotlin.same_as(&other.kotlin)
    }

    fn to_json(&self) -> (r: Json) {
        Json::object()
            .with("kotlin", self.kotlin.to_json())
    }
}

/// An edit that is said by what it does.
#[derive(Debug, PartialEq, Eq)]
pub enum SemanticOperation {
    MapEdgeWithContext {
        workflow_symbol: String,
        context_producer_symbol: String,
        transformer_symbol: String,
        value_parameter_index: usize,
        collection_type: String,
        element_type: String,
        context_type: String,
        placement: String,
        strategy: String,
    },
}

/// The model of a [`SemanticOperation`].
pub enum SemanticOperationModel {
    MapEdgeWithContext {
        workflow_symbol: Seq<char>,
        context_producer_symbol: Seq<char>,
        transformer_symbol: Seq<char>,
        value_parameter_index: usize,
        collection_type: Seq<char>,
        element_type: Seq<char>,
        context_type: Seq<char>,
        placement: Seq<char>,
        strategy: Seq<char>,
    },
}

impl DeepView for SemanticOperation {
    type V = SemanticOperationModel;

    open spec fn deep_view(&self) -> SemanticOperationModel {
        match self {
            SemanticOperation::MapEdgeWithContext { workflow_symbol, context_producer_symbol, transformer_symbol, value_parameter_index, collection_type, element_type, context_type, placement, strategy } => SemanticOperationModel::MapEdgeWithContext {
                workflow_symbol: workflow_symbol.deep_view(),
                context_producer_symbol: context_producer_symbol.deep_view(),
                transformer_symbol: transformer_symbol.deep_view(),
                value_parameter_index: value_parameter_index.deep_view(),
                collection_type: collection_type.deep_view(),
                element_type: element_type.deep_view(),
                context_type: context_type.deep_view(),
                placement: placement.deep_view(),
                strategy: strategy.deep_view(),
            },
        }
    }
}

impl Record for SemanticOperation {
    open spec fn json(v: SemanticOperationModel) -> JsonModel {
        match v {
            SemanticOperationModel::MapEdgeWithContext { workflow_symbol, context_producer_symbol, transformer_symbol, value_parameter_index, collection_type, element_type, context_type, placement, strategy } => JsonModel::object()
                .with("workflowSymbol"@, <String as Record>::json(workflow_symbol))
                .with("contextProducerSymbol"@, <String as Record>::json(context_producer_symbol))
                .with("transformerSymbol"@, <String as Record>::json(transformer_symbol))
                .with("valueParameterIndex"@, <usize as Record>::json(value_parameter_index))
                .with("collectionType"@, <String as Record>::json(collection_type))
                .with("elementType"@, <String as Record>::json(element_type))
                .with("contextType"@, <String as Record>::json(context_type))
                .with("placement"@, <String as Record>::json(placement))
                .with("strategy"@, <String as Record>::json(strategy))
                .with("kind"@, JsonModel::Str("MAP_EDGE_WITH_CONTEXT"@)),
        }
    }

    fn copied(&self) -> (r: SemanticOperation) {
        match self {
            SemanticOperation::MapEdgeWithContext { workflow_symbol, context_producer_symbol, transformer_symbol, value_parameter_index, collection_type, element_type, context_type, placement, strategy } => SemanticOperation::MapEdgeWithContext {
                workflow_symbol: workflow_symbol.copied(),
                context_producer_symbol: context_producer_symbol.copied(),
                transformer_symbol: transformer_symbol.copied(),
                value_parameter_index: value_parameter_index.copied(),
                collection_type: collection_type.copied(),
                element_type: element_type.copied(),
                context_type: context_type.copied(),
                placement: placement.copied(),
                strategy: strategy.copied(),
            },
        }
    }

    fn same_as(&self, other: &SemanticOperation) -> (r: bool) {
        match (self, other) {
            (SemanticOperation::MapEdgeWithContext { workflow_symbol: a0, context_producer_symbol: a1, transformer_symbol: a2, value_parameter_index: a3, collection_type: a4, element_type: a5, context_type: a6, placement: a7, strategy: a8 }, SemanticOperation::MapEdgeWithContext { workflow_symbol: b0, context_producer_symbol: b1, transformer_symbol: b2, value_parameter_index: b3, collection_type: b4, element_type: b5, context_type: b6, placement: b7, strategy: b8 }) => a0.same_as(b0) && a1.same_as(b1) && a2.same_as(b2) && a3.same_as(b3) && a4.same_as(b4) && a5.same_as(b5) && a6.same_as(b6) && a7.same_as(b7) && a8.same_as(b8),
        }
    }

    fn to_json(&self) -> (r: Json) {
        match self {
            SemanticOperation::MapEdgeWithContext { workflow_symbol, context_producer_symbol, transformer_symbol, value_parameter_index, collection_type, element_type, context_type, placement, strategy } => Json::object()
                .with("workflowSymbol", workflow_symbol.to_json())
                .with("contextProducerSymbol", context_producer_symbol.to_json())
                .with("transformerSymbol", transformer_symbol.to_json())
                .with("valueParameterIndex", value_parameter_index.to_json())
                .with("collectionType", collection_type.to_json())
                .with("elementType", element_type.to_json())
                .with("contextType", context_type.to_json())
                .with("placement", placement.to_json())
                .with("strategy", strategy.to_json())
                .with("kind", Json::Str("MAP_EDGE_WITH_CONTEXT".to_owned())),
        }
    }
}

/// One operation of an edit.
#[derive(Debug, PartialEq, Eq)]
pub struct EditOperation {
    pub op_id: String,
    pub kind: String,
    pub target: Json,
    pub replacement: Replacement,
    pub semantic_operation: Option<SemanticOperation>,
    pub preconditions: Json,
    pub postconditions: Json,
}

/// The model of a [`EditOperation`].
pub struct EditOperationModel {
    pub op_id: Seq<char>,
    pub kind: Seq<char>,
    pub target: JsonModel,
    pub replacement: ReplacementModel,
    pub semantic_operation: Option<SemanticOperationModel>,
    pub preconditions: JsonModel,
    pub postconditions: JsonModel,
}

impl DeepView for EditOperation {
    type V = EditOperationModel;

    open spec fn deep_view(&self) -> EditOperationModel {
        EditOperationModel {
            op_id: self.op_id.deep_view(),
            kind: self.kind.deep_view(),
            target: self.target.deep_view(),
            replacement: self.replacement.deep_view(),
            semantic_operation: self.semantic_operation.deep_view(),
            preconditions: self.preconditions.deep_view(),
            postconditions: self.postconditions.deep_view(),
        }
    }
}

impl Record for EditOperation {
    open spec fn json(v: EditOperationModel) -> JsonModel {
        JsonModel::object()
            .with("opId"@, <String as Record>::json(v.op_id))
            .with("kind"@, <String as Record>::json(v.kind))
            .with("target"@, <Json as Record>::json(v.target))
            .with("replacement"@, <Replacement as Record>::json(v.replacement))
            .with_some("semanticOperation"@, match v.semantic_operation { Some(x) => Some(<SemanticOperation as Record>::json(x)), None => None })
            .with("preconditions"@, <Json as Record>::json(v.preconditions))
            .with("postconditions"@, <Json as Record>::json(v.postconditions))
    }

    fn copied(&self) -> (r: EditOperation) {
        EditOperation {
            op_id: self.op_id.copied(),
            kind: self.kind.copied(),
            target: self.target.copied(),
            replacement: self.replacement.copied(),
            semantic_operation: self.semantic_operation.copied(),
            preconditions: self.preconditions.copied(),
            postconditions: self.postconditions.copied(),
        }
    }

    fn same_as(&self, other: &EditOperation) -> (r: bool) {
        self.op_id.same_as(&other.op_id)
            && self.kind.same_as(&other.kind)
            && self.target.same_as(&other.target)
            && self.replacement.same_as(&other.replacement)
            && self.semantic_operation.same_as(&other.semantic_operation)
            && self.preconditions.same_as(&other.preconditions)
            && self.postconditions.same_as(&other.postconditions)
    }

    fn to_json(&self) -> (r: Json) {
        Json::object()
            .with("opId", self.op_id.to_json())
            .with("kind", self.kind.to_json())
            .with("target", self.target.to_json())
            .with("replacement", self.replacement.to_json())
            .with_some("semanticOperation", match &self.semantic_operation { Some(x) => Some(x.to_json()), None => None })
            .with("preconditions", self.preconditions.to_json())
            .with("postconditions", self.postconditions.to_json())
    }
}

/// An edit on a slice.
#[derive(Debug, PartialEq, Eq)]
pub struct EditIr {
    pub schema: String,
    pub thread_id: String,
    pub base_revision: String,
    pub operations: Vec<EditOperation>,
    pub expected_write_set: Vec<ExpectedWriteFact>,
}

/// The model of a [`EditIr`].
pub struct EditIrModel {
    pub schema: Seq<char>,
    pub thread_id: Seq<char>,
    pub base_revision: Seq<char>,
    pub operations: Seq<EditOperationModel>,
    pub expected_write_set: Seq<ExpectedWriteFactModel>,
}

impl DeepView for EditIr {
    type V = EditIrModel;

    open spec fn deep_view(&self) -> EditIrModel {
        EditIrModel {
            schema: self.schema.deep_view(),
            thread_id: self.thread_id.deep_view(),
            base_revision: self.base_revision.deep_view(),
            operations: self.operations.deep_view(),
            expected_write_set: self.expected_write_set.deep_view(),
        }
    }
}

impl Record for EditIr {
    open spec fn json(v: EditIrModel) -> JsonModel {
        JsonModel::object()
            .with("schema"@, <String as Record>::json(v.schema))
            .with("threadId"@, <String as Record>::json(v.thread_id))
            .with("baseRevision"@, <String as Record>::json(v.base_revision))
            .with("operations"@, <Vec<EditOperation> as Record>::json(v.operations))
            .with("expectedWriteSet"@, <Vec<ExpectedWriteFact> as Record>::json(v.expected_write_set))
    }

    fn copied(&self) -> (r: EditIr) {
        EditIr {
            schema: self.schema.copied(),
            thread_id: self.thread_id.copied(),
            base_revision: self.base_revision.copied(),
            operations: self.operations.copied(),
            expected_write_set: self.expected_write_set.copied(),
        }
    }

    fn same_as(&self, other: &EditIr) -> (r: bool) {
        self.schema.same_as(&other.schema)
            && self.thread_id.same_as(&other.thread_id)
            && self.base_revision.same_as(&other.base_revision)
            && self.operations.same_as(&other.operations)
            && self.expected_write_set.same_as(&other.expected_write_set)
    }

    fn to_json(&self) -> (r: Json) {
        Json::object()
            .with("schema", self.schema.to_json())
            .with("threadId", self.thread_id.to_json())
            .with("baseRevision", self.base_revision.to_json())
            .with("operations", self.operations.to_json())
            .with("expectedWriteSet", self.expected_write_set.to_json())
    }
}

/// What an edit would change. The sources of the changed files stand under their
/// paths.
#[derive(Debug, PartialEq, Eq)]
pub struct PreviewReport {
    pub schema: String,
    pub transaction_id: String,
    pub base_revision: String,
    pub valid: bool,
    pub changed_files: Vec<String>,
    pub diff: String,
    pub candidates: Json,
    pub actual_write_set: Vec<WriteFact>,
    pub expected_write_set: Vec<ExpectedWriteFact>,
    pub diagnostics: Vec<Json>,
    pub formatting_windows: Vec<Json>,
}

/// The model of a [`PreviewReport`].
pub struct PreviewReportModel {
    pub schema: Seq<char>,
    pub transaction_id: Seq<char>,
    pub base_revision: Seq<char>,
    pub valid: bool,
    pub changed_files: Seq<Seq<char>>,
    pub diff: Seq<char>,
    pub candidates: JsonModel,
    pub actual_write_set: Seq<WriteFactModel>,
    pub expected_write_set: Seq<ExpectedWriteFactModel>,
    pub diagnostics: Seq<JsonModel>,
    pub formatting_windows: Seq<JsonModel>,
}

impl DeepView for PreviewReport {
    type V = PreviewReportModel;

    open spec fn deep_view(&self) -> PreviewReportModel {
        PreviewReportModel {
            schema: self.schema.deep_view(),
            transaction_id: self.transaction_id.deep_view(),
            base_revision: self.base_revision.deep_view(),
            valid: self.valid.deep_view(),
            changed_files: self.changed_files.deep_view(),
            diff: self.diff.deep_view(),
            candidates: self.candidates.deep_view(),
            actual_write_set: self.actual_write_set.deep_view(),
            expected_write_set: self.expected_write_set.deep_view(),
            diagnostics: self.diagnostics.deep_view(),
            formatting_windows: self.formatting_windows.deep_view(),
        }
    }
}

impl Record for PreviewReport {
    open spec fn json(v: PreviewReportModel) -> JsonModel {
        JsonModel::object()
            .with("schema"@, <String as Record>::json(v.schema))
            .with("transactionId"@, <String as Record>::json(v.transaction_id))
            .with("baseRevision"@, <String as Record>::json(v.base_revision))
            .with("valid"@, <bool as Record>::json(v.valid))
            .with("changedFiles"@, <Vec<String> as Record>::json(v.changed_files))
            .with("diff"@, <String as Record>::json(v.diff))
            .with("candidates"@, <Json as Record>::json(v.candidates))
            .with("actualWriteSet"@, <Vec<WriteFact> as Record>::json(v.actual_write_set))
            .with("expectedWriteSet"@, <Vec<ExpectedWriteFact> as Record>::json(v.expected_write_set))
            .with("diagnostics"@, <Vec<Json> as Record>::json(v.diagnostics))
            .with("formattingWindows"@, <Vec<Json> as Record>::json(v.formatting_windows))
    }

    fn copied(&self) -> (r: PreviewReport) {
        PreviewReport {
            schema: self.schema.copied(),
            transaction_id: self.transaction_id.copied(),
            base_revision: self.base_revision.copied(),
            valid: self.valid.copied(),
            changed_files: self.changed_files.copied(),
            diff: self.diff.copied(),
            candidates: self.candidates.copied(),
            actual_write_set: self.actual_write_set.copied(),
            expected_write_set: self.expected_write_set.copied(),
            diagnostics: self.diagnostics.copied(),
            formatting_windows: self.formatting_windows.copied(),
        }
    }

    fn same_as(&self, other: &PreviewReport) -> (r: bool) {
        self.schema.same_as(&other.schema)
            && self.transaction_id.same_as(&other.transaction_id)
            && self.base_revision.same_as(&other.base_revision)
            && self.valid.same_as(&other.valid)
            && self.changed_files.same_as(&other.changed_files)
            && self.diff.same_as(&other.diff)
            && self.candidates.same_as(&other.candidates)
            && self.actual_write_set.same_as(&other.actual_write_set)
            && self.expected_write_set.same_as(&other.expected_write_set)
            && self.diagnostics.same_as(&other.diagnostics)
            && self.formatting_windows.same_as(&other.formatting_windows)
    }

    fn to_json(&self) -> (r: Json) {
        Json::object()
            .with("schema", self.schema.to_json())
            .with("transactionId", self.transaction_id.to_json())
            .with("baseRevision", self.base_revision.to_json())
            .with("valid", self.valid.to_json())
            .with("changedFiles", self.changed_files.to_json())
            .with("diff", self.diff.to_json())
            .with("candidates", self.candidates.to_json())
            .with("actualWriteSet", self.actual_write_set.to_json())
            .with("expectedWriteSet", self.expected_write_set.to_json())
            .with("diagnostics", self.diagnostics.to_json())
            .with("formattingWindows", self.formatting_windows.to_json())
    }
}

/// An edit that is carried out.
#[derive(Debug, PartialEq, Eq)]
pub struct Transaction {
    pub tx_id: String,
    pub intent: String,
    pub base_revision: String,
    pub project_model_hash: String,
    pub status: String,
    pub thread: ThreadIr,
    pub required_threads: Vec<ThreadIr>,
    pub edit: EditIr,
    pub test_tasks: Vec<String>,
    pub preview: Option<PreviewReport>,
    pub target_ref: Option<String>,
    pub base_index_snapshot: Option<String>,
    pub expected_write_set_hash: Option<String>,
    pub actual_write_set_hash: Option<String>,
    pub validation_evidence: Vec<Json>,
    pub candidate_commit: Option<String>,
    pub final_commit: Option<String>,
}

/// The model of a [`Transaction`].
pub struct TransactionModel {
    pub tx_id: Seq<char>,
    pub intent: Seq<char>,
    pub base_revision: Seq<char>,
    pub project_model_hash: Seq<char>,
    pub status: Seq<char>,
    pub thread: ThreadIrModel,
    pub required_threads: Seq<ThreadIrModel>,
    pub edit: EditIrModel,
    pub test_tasks: Seq<Seq<char>>,
    pub preview: Option<PreviewReportModel>,
    pub target_ref: Option<Seq<char>>,
    pub base_index_snapshot: Option<Seq<char>>,
    pub expected_write_set_hash: Option<Seq<char>>,
    pub actual_write_set_hash: Option<Seq<char>>,
    pub validation_evidence: Seq<JsonModel>,
    pub candidate_commit: Option<Seq<char>>,
    pub final_commit: Option<Seq<char>>,
}

impl DeepView for Transaction {
    type V = TransactionModel;

    open spec fn deep_view(&self) -> TransactionModel {
        TransactionModel {
            tx_id: self.tx_id.deep_view(),
            intent: self.intent.deep_view(),
            base_revision: self.base_revision.deep_view(),
            project_model_hash: self.project_model_hash.deep_view(),
            status: self.status.deep_view(),
            thread: self.thread.deep_view(),
            required_threads: self.required_threads.deep_view(),
            edit: self.edit.deep_view(),
            test_tasks: self.test_tasks.deep_view(),
            preview: self.preview.deep_view(),
            target_ref: self.target_ref.deep_view(),
            base_index_snapshot: self.base_index_snapshot.deep_view(),
            expected_write_set_hash: self.expected_write_set_hash.deep_view(),
            actual_write_set_hash: self.actual_write_set_hash.deep_view(),
            validation_evidence: self.validation_evidence.deep_view(),
            candidate_commit: self.candidate_commit.deep_view(),
            final_commit: self.final_commit.deep_view(),
        }
    }
}

impl Record for Transaction {
    open spec fn json(v: TransactionModel) -> JsonModel {
        JsonModel::object()
            .with("txId"@, <String as Record>::json(v.tx_id))
            .with("intent"@, <String as Record>::json(v.intent))
            .with("baseRevision"@, <String as Record>::json(v.base_revision))
            .with("projectModelHash"@, <String as Record>::json(v.project_model_hash))
            .with("status"@, <String as Record>::json(v.status))
            .with("thread"@, <ThreadIr as Record>::json(v.thread))
            .with("requiredThreads"@, <Vec<ThreadIr> as Record>::json(v.required_threads))
            .with("edit"@, <EditIr as Record>::json(v.edit))
            .with("testTasks"@, <Vec<String> as Record>::json(v.test_tasks))
            .with("preview"@, <Option<PreviewReport> as Record>::json(v.preview))
            .with("targetRef"@, <Option<String> as Record>::json(v.target_ref))
            .with("baseIndexSnapshot"@, <Option<String> as Record>::json(v.base_index_snapshot))
            .with("expectedWriteSetHash"@, <Option<String> as Record>::json(v.expected_write_set_hash))
            .with("actualWriteSetHash"@, <Option<String> as Record>::json(v.actual_write_set_hash))
            .with("validationEvidence"@, <Vec<Json> as Record>::json(v.validation_evidence))
            .with("candidateCommit"@, <Option<String> as Record>::json(v.candidate_commit))
            .with("finalCommit"@, <Option<String> as Record>::json(v.final_commit))
    }

    fn copied(&self) -> (r: Transaction) {
        Transaction {
            tx_id: self.tx_id.copied(),
            intent: self.intent.copied(),
            base_revision: self.base_revision.copied(),
            project_model_hash: self.project_model_hash.copied(),
            status: self.status.copied(),
            thread: self.thread.copied(),
            required_threads: self.required_threads.copied(),
            edit: self.edit.copied(),
            test_tasks: self.test_tasks.copied(),
            preview: self.preview.copied(),
            target_ref: self.target_ref.copied(),
            base_index_snapshot: self.base_index_snapshot.copied(),
            expected_write_set_hash: self.expected_write_set_hash.copied(),
            actual_write_set_hash: self.actual_write_set_hash.copied(),
            validation_evidence: self.validation_evidence.copied(),
            candidate_commit: self.candidate_commit.copied(),
            final_commit: self.final_commit.copied(),
        }
    }

    fn same_as(&self, other: &Transaction) -> (r: bool) {
        self.tx_id.same_as(&other.tx_id)
            && self.intent.same_as(&other.intent)
            && self.base_revision.same_as(&other.base_revision)
            && self.project_model_hash.same_as(&other.project_model_hash)
            && self.status.same_as(&other.status)
            && self.thread.same_as(&other.thread)
            && self.required_threads.same_as(&other.required_threads)
            && self.edit.same_as(&other.edit)
            && self.test_tasks.same_as(&other.test_tasks)
            && self.preview.same_as(&other.preview)
            && self.target_ref.same_as(&other.target_ref)
            && self.base_index_snapshot.same_as(&other.base_index_snapshot)
            && self.expected_write_set_hash.same_as(&other.expected_write_set_hash)
            && self.actual_write_set_hash.same_as(&other.actual_write_set_hash)
            && self.validation_evidence.same_as(&other.validation_evidence)
            && self.candidate_commit.same_as(&other.candidate_commit)
            && self.final_commit.same_as(&other.final_commit)
    }

    fn to_json(&self) -> (r: Json) {
        Json::object()
            .with("txId", self.tx_id.to_json())
            .with("intent", self.intent.to_json())
            .with("baseRevision", self.base_revision.to_json())
            .with("projectModelHash", self.project_model_hash.to_json())
            .with("status", self.status.to_json())
            .with("thread", self.thread.to_json())
            .with("requiredThreads", self.required_threads.to_json())
            .with("edit", self.edit.to_json())
            .with("testTasks", self.test_tasks.to_json())
            .with("preview", self.preview.to_json())
            .with("targetRef", self.target_ref.to_json())
            .with("baseIndexSnapshot", self.base_index_snapshot.to_json())
            .with("expectedWriteSetHash", self.expected_write_set_hash.to_json())
            .with("actualWriteSetHash", self.actual_write_set_hash.to_json())
            .with("validationEvidence", self.validation_evidence.to_json())
            .with("candidateCommit", self.candidate_commit.to_json())
            .with("finalCommit", self.final_commit.to_json())
    }
}

} // verus!
