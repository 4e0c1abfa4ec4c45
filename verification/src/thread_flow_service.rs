//! Checks around the publication and the retained loading of flow slices.

use vstd::prelude::*;
use vstd::string::*;

use crate::cas::{reference_to, CasObject, CasObjectModel};
use crate::error::{
    accept, accepted, budget, corrupt, corrupted, exceeded, invalid, outcome, refused, ClewError,
    ErrorModel,
};
use crate::json::{canonical_bytes, Json, JsonModel};
use crate::measure::{length_of, literal_is_bounded, object_has_its_length, with_adds_length};
use crate::record::Record;
use crate::retained::{
    check_sources, creation_settled, decide_publication, digits_of_id, group_anchor, grouped,
    grouping_stays_among, host_size, id_digits, is_source_path, object_bytes, object_reads_back,
    publication_of, read_object, reads_back, settle_creation, source_path, sources_among,
    sources_checked, sources_pass_again, to_host_size, ObjectRead, ObjectReadModel, Publication,
    SourceGroup, SourceGroupModel, SourceReports, SourceReportsModel,
};
use crate::table::{
    enter, entered, find_record, found_is_there, has_key, last_table, latest_are_records,
    latest_table_of, no_other_record_comes_in, record_at, Keyed,
};
use crate::text::{has_prefix, same_bytes, same_text, starts_with};
use crate::thread::{ThreadAuthority, ThreadAuthorityModel};
use crate::thread_callables::{
    CallableCompilationBinding, CallableCompilationBindingModel, CallableMemberBinding,
    PreparedCallableFactSet, PreparedCallableFactSetModel,
};
use crate::thread_flow::{
    build_with_cfg, built_slice_is_sound, built_slice_verifies_with_cfg, flow_built, frozen_budgets,
    prepared_verified, prepared_verified_with_cfg, verify_prepared, verify_prepared_with_cfg,
    FlowBoundary, FlowBoundaryModel, FlowBudgets, FlowControlRegion, FlowControlRegionModel,
    FlowDirection, FlowEdgeModel, FlowNodeModel, FlowRequest, FlowRequestModel, FlowRootKind,
    FlowSlice, FlowSliceModel, FlowSliceProjection, FlowSliceProjectionModel, FlowSupportRef,
    FlowSupportRefModel, PreparedFlowSlice, PreparedFlowSliceModel, FLOW_SLICE_SCHEMA,
    MAX_FLOW_DEPTH, MAX_FLOW_SLICE_BYTES, MAX_FLOW_STDOUT_BYTES,
};
use crate::thread_flow_cfg::{
    graph_key, inserted, LocalCfgCatalog, LocalCfgPayload, LocalCfgPayloadModel, LocalCfgSupport,
    LocalCfgSupportModel, PreparedLocalCfg, PreparedLocalCfgModel, LOCAL_CFG_PAYLOAD_SCHEMA,
};
use crate::thread_flow_order::{graphs_leave_a_mark, order_code, order_id};

verus! {

pub const THREAD_FLOW_ROOT_SCHEMA: &'static str = "codeclew-thread-flow-root/0.1";

pub const THREAD_FLOW_RESULT_SCHEMA: &'static str = "codeclew-thread-flow-result/0.1";

pub const GENERATION_SCHEMA: &'static str = "codeclew-generation-manifest/2.0";

pub const MAX_FLOW_RETAINED_CLOSURE_BYTES: usize = 64 * 1024 * 1024;

pub const MAX_THREAD_FLOW_ROOT_BYTES: usize = 256 * 1024;

pub const MAX_LOCAL_CFG_PAYLOAD_BYTES: usize = 4 * 1024 * 1024;

/// What a flow of a thread is asked for.
#[derive(Debug, PartialEq, Eq)]
pub struct ThreadFlowServiceRequest {
    pub pair_id: String,
    pub member_alias: String,
    pub root_kind: FlowRootKind,
    pub root: String,
    pub direction: FlowDirection,
    pub max_depth: usize,
}

/// The model of a [`ThreadFlowServiceRequest`].
pub struct ThreadFlowServiceRequestModel {
    pub pair_id: Seq<char>,
    pub member_alias: Seq<char>,
    pub root_kind: FlowRootKind,
    pub root: Seq<char>,
    pub direction: FlowDirection,
    pub max_depth: usize,
}

impl DeepView for ThreadFlowServiceRequest {
    type V = ThreadFlowServiceRequestModel;

    open spec fn deep_view(&self) -> ThreadFlowServiceRequestModel {
        ThreadFlowServiceRequestModel {
            pair_id: self.pair_id.deep_view(),
            member_alias: self.member_alias.deep_view(),
            root_kind: self.root_kind.deep_view(),
            root: self.root.deep_view(),
            direction: self.direction.deep_view(),
            max_depth: self.max_depth.deep_view(),
        }
    }
}

impl Record for ThreadFlowServiceRequest {
    open spec fn json(v: ThreadFlowServiceRequestModel) -> JsonModel {
        JsonModel::object()
            .with("pairId"@, <String as Record>::json(v.pair_id))
            .with("memberAlias"@, <String as Record>::json(v.member_alias))
            .with("rootKind"@, <FlowRootKind as Record>::json(v.root_kind))
            .with("root"@, <String as Record>::json(v.root))
            .with("direction"@, <FlowDirection as Record>::json(v.direction))
            .with("maxDepth"@, <usize as Record>::json(v.max_depth))
    }

    fn copied(&self) -> (r: ThreadFlowServiceRequest) {
        ThreadFlowServiceRequest {
            pair_id: self.pair_id.copied(),
            member_alias: self.member_alias.copied(),
            root_kind: self.root_kind.copied(),
            root: self.root.copied(),
            direction: self.direction.copied(),
            max_depth: self.max_depth.copied(),
        }
    }

    fn same_as(&self, other: &ThreadFlowServiceRequest) -> (r: bool) {
        self.pair_id.same_as(&other.pair_id)
            && self.member_alias.same_as(&other.member_alias)
            && self.root_kind.same_as(&other.root_kind)
            && self.root.same_as(&other.root)
            && self.direction.same_as(&other.direction)
            && self.max_depth.same_as(&other.max_depth)
    }

    fn to_json(&self) -> (r: Json) {
        Json::object()
            .with("pairId", self.pair_id.to_json())
            .with("memberAlias", self.member_alias.to_json())
            .with("rootKind", self.root_kind.to_json())
            .with("root", self.root.to_json())
            .with("direction", self.direction.to_json())
            .with("maxDepth", self.max_depth.to_json())
    }
}

/// The retained root of a flow slice.
#[derive(Debug, PartialEq, Eq)]
pub struct ThreadFlowRoot {
    pub schema: String,
    pub flow_id: String,
    pub thread_id: String,
    pub thread_authority_digest: String,
    pub fact_set_id: String,
    pub fact_set_authority_digest: String,
    pub slice_ref: CasObject,
    pub projection: FlowSliceProjection,
}

/// The model of a [`ThreadFlowRoot`].
pub struct ThreadFlowRootModel {
    pub schema: Seq<char>,
    pub flow_id: Seq<char>,
    pub thread_id: Seq<char>,
    pub thread_authority_digest: Seq<char>,
    pub fact_set_id: Seq<char>,
    pub fact_set_authority_digest: Seq<char>,
    pub slice_ref: CasObjectModel,
    pub projection: FlowSliceProjectionModel,
}

impl DeepView for ThreadFlowRoot {
    type V = ThreadFlowRootModel;

    open spec fn deep_view(&self) -> ThreadFlowRootModel {
        ThreadFlowRootModel {
            schema: self.schema.deep_view(),
            flow_id: self.flow_id.deep_view(),
            thread_id: self.thread_id.deep_view(),
            thread_authority_digest: self.thread_authority_digest.deep_view(),
            fact_set_id: self.fact_set_id.deep_view(),
            fact_set_authority_digest: self.fact_set_authority_digest.deep_view(),
            slice_ref: self.slice_ref.deep_view(),
            projection: self.projection.deep_view(),
        }
    }
}

impl Record for ThreadFlowRoot {
    open spec fn json(v: ThreadFlowRootModel) -> JsonModel {
        JsonModel::object()
            .with("schema"@, <String as Record>::json(v.schema))
            .with("flowId"@, <String as Record>::json(v.flow_id))
            .with("threadId"@, <String as Record>::json(v.thread_id))
            .with("threadAuthorityDigest"@, <String as Record>::json(v.thread_authority_digest))
            .with("factSetId"@, <String as Record>::json(v.fact_set_id))
            .with("factSetAuthorityDigest"@, <String as Record>::json(v.fact_set_authority_digest))
            .with("sliceRef"@, <CasObject as Record>::json(v.slice_ref))
            .with("projection"@, <FlowSliceProjection as Record>::json(v.projection))
    }

    fn copied(&self) -> (r: ThreadFlowRoot) {
        ThreadFlowRoot {
            schema: self.schema.copied(),
            flow_id: self.flow_id.copied(),
            thread_id: self.thread_id.copied(),
            thread_authority_digest: self.thread_authority_digest.copied(),
            fact_set_id: self.fact_set_id.copied(),
            fact_set_authority_digest: self.fact_set_authority_digest.copied(),
            slice_ref: self.slice_ref.copied(),
            projection: self.projection.copied(),
        }
    }

    fn same_as(&self, other: &ThreadFlowRoot) -> (r: bool) {
        self.schema.same_as(&other.schema)
            && self.flow_id.same_as(&other.flow_id)
            && self.thread_id.same_as(&other.thread_id)
            && self.thread_authority_digest.same_as(&other.thread_authority_digest)
            && self.fact_set_id.same_as(&other.fact_set_id)
            && self.fact_set_authority_digest.same_as(&other.fact_set_authority_digest)
            && self.slice_ref.same_as(&other.slice_ref)
            && self.projection.same_as(&other.projection)
    }

    fn to_json(&self) -> (r: Json) {
        Json::object()
            .with("schema", self.schema.to_json())
            .with("flowId", self.flow_id.to_json())
            .with("threadId", self.thread_id.to_json())
            .with("threadAuthorityDigest", self.thread_authority_digest.to_json())
            .with("factSetId", self.fact_set_id.to_json())
            .with("factSetAuthorityDigest", self.fact_set_authority_digest.to_json())
            .with("sliceRef", self.slice_ref.to_json())
            .with("projection", self.projection.to_json())
    }
}

/// The outcome for an identifier of a flow: its digits.
pub open spec fn flow_id_checked(flow_id: Seq<char>) -> Result<Seq<char>, ErrorModel> {
    match id_digits(flow_id, "thread-flow:sha256:"@) {
        Some(digits) => Ok(digits),
        None => refused("thread flow id is invalid"@),
    }
}

/// The digits of an identifier of a flow, which name the file of its root.
pub fn validate_flow_id(flow_id: &str) -> (r: Result<String, ClewError>)
    ensures
        outcome(r) == flow_id_checked(flow_id@),
{
    match digits_of_id(flow_id, "thread-flow:sha256:") {
        Some(digits) => Ok(digits),
        None => Err(invalid("thread flow id is invalid")),
    }
}

/// The outcome for a root.
pub open spec fn root_checked(root: ThreadFlowRootModel) -> Result<(), ErrorModel> {
    match flow_id_checked(root.flow_id) {
        Err(e) => Err(e),
        Ok(_) => if root.schema != THREAD_FLOW_ROOT_SCHEMA@ || root.slice_ref.object_schema
            != FLOW_SLICE_SCHEMA@ || root.projection.flow_id != root.flow_id {
            corrupted("thread flow retained root authority is invalid"@)
        } else {
            Ok(())
        },
    }
}

fn validate_root(root: &ThreadFlowRoot) -> (r: Result<(), ClewError>)
    ensures
        outcome(r) == root_checked(root.deep_view()),
{
    validate_flow_id(root.flow_id.as_str())?;
    if !same_text(root.schema.as_str(), THREAD_FLOW_ROOT_SCHEMA) || !same_text(
        root.slice_ref.object_schema.as_str(),
        FLOW_SLICE_SCHEMA,
    ) || !root.projection.flow_id.same_as(&root.flow_id) {
        return Err(corrupt("thread flow retained root authority is invalid"));
    }
    Ok(())
}

/// The root of a slice.
pub open spec fn root_of(
    thread: ThreadAuthorityModel,
    set: PreparedCallableFactSetModel,
    p: PreparedFlowSliceModel,
) -> ThreadFlowRootModel {
    ThreadFlowRootModel {
        schema: THREAD_FLOW_ROOT_SCHEMA@,
        flow_id: p.slice.flow_id,
        thread_id: thread.thread_id,
        thread_authority_digest: thread.authority_digest,
        fact_set_id: set.fact_set_id,
        fact_set_authority_digest: set.authority.authority_digest,
        slice_ref: p.slice_ref,
        projection: p.projection,
    }
}

fn root_from_prepared(
    thread: &ThreadAuthority,
    fact_set: &PreparedCallableFactSet,
    prepared: &PreparedFlowSlice,
) -> (r: Result<ThreadFlowRoot, ClewError>)
    ensures
        outcome(r) == (match root_checked(
            root_of(thread.deep_view(), fact_set.deep_view(), prepared.deep_view()),
        ) {
            Ok(_) => Ok(root_of(thread.deep_view(), fact_set.deep_view(), prepared.deep_view())),
            Err(e) => Err(e),
        }),
{
    let root = ThreadFlowRoot {
        schema: THREAD_FLOW_ROOT_SCHEMA.to_owned(),
        flow_id: prepared.slice.flow_id.clone(),
        thread_id: thread.thread_id.clone(),
        thread_authority_digest: thread.authority_digest.clone(),
        fact_set_id: fact_set.fact_set_id.clone(),
        fact_set_authority_digest: fact_set.authority.authority_digest.clone(),
        slice_ref: prepared.slice_ref.copied(),
        projection: prepared.projection.copied(),
    };
    validate_root(&root)?;
    Ok(root)
}

/// What is printed of a root.
pub open spec fn stdout_of(root: ThreadFlowRootModel) -> JsonModel {
    JsonModel::object().with("schema"@, JsonModel::Str(THREAD_FLOW_RESULT_SCHEMA@)).with(
        "threadId"@,
        JsonModel::Str(root.thread_id),
    ).with("threadAuthorityDigest"@, JsonModel::Str(root.thread_authority_digest)).with(
        "factSetId"@,
        JsonModel::Str(root.fact_set_id),
    ).with("factSetAuthorityDigest"@, JsonModel::Str(root.fact_set_authority_digest)).with(
        "flowId"@,
        JsonModel::Str(root.flow_id),
    ).with("sliceRef"@, <CasObject as Record>::json(root.slice_ref)).with(
        "flow"@,
        <FlowSliceProjection as Record>::json(root.projection),
    )
}

/// What is printed of a root, where it fits with its line feed.
pub open spec fn stdout_bounded(root: ThreadFlowRootModel) -> Result<JsonModel, ErrorModel> {
    match root_checked(root) {
        Err(e) => Err(e),
        Ok(_) => if canonical_bytes(stdout_of(root)).len() + 1 > MAX_FLOW_STDOUT_BYTES {
            exceeded("thread flow stdout exceeds 64 KiB"@)
        } else {
            Ok(stdout_of(root))
        },
    }
}

/// What is printed of a root, where it fits with its line feed.
pub fn bounded_stdout(root: &ThreadFlowRoot) -> (r: Result<Json, ClewError>)
    ensures
        outcome(r) == stdout_bounded(root.deep_view()),
{
    validate_root(root)?;
    let value = Json::object().with(
        "schema",
        Json::Str(THREAD_FLOW_RESULT_SCHEMA.to_owned()),
    ).with("threadId", Json::Str(root.thread_id.clone())).with(
        "threadAuthorityDigest",
        Json::Str(root.thread_authority_digest.clone()),
    ).with("factSetId", Json::Str(root.fact_set_id.clone())).with(
        "factSetAuthorityDigest",
        Json::Str(root.fact_set_authority_digest.clone()),
    ).with("flowId", Json::Str(root.flow_id.clone())).with("sliceRef", root.slice_ref.to_json()).with(
        "flow",
        root.projection.to_json(),
    );
    if value.bytes().len().saturating_add(1) > MAX_FLOW_STDOUT_BYTES {
        return Err(budget("thread flow stdout exceeds 64 KiB"));
    }
    Ok(value)
}

/// The supports of the first `n` nodes.
pub open spec fn node_supports(nodes: Seq<FlowNodeModel>, n: nat) -> Seq<FlowSupportRefModel>
    decreases n,
{
    if n == 0 || n > nodes.len() {
        Seq::empty()
    } else {
        node_supports(nodes, (n - 1) as nat) + nodes[n - 1].support_refs
    }
}

/// The supports of the first `n` edges.
pub open spec fn edge_supports(edges: Seq<FlowEdgeModel>, n: nat) -> Seq<FlowSupportRefModel>
    decreases n,
{
    if n == 0 || n > edges.len() {
        Seq::empty()
    } else {
        edge_supports(edges, (n - 1) as nat) + edges[n - 1].support_refs
    }
}

/// The supports of the first `n` boundaries.
pub open spec fn boundary_supports(
    boundaries: Seq<FlowBoundaryModel>,
    n: nat,
) -> Seq<FlowSupportRefModel>
    decreases n,
{
    if n == 0 || n > boundaries.len() {
        Seq::empty()
    } else {
        boundary_supports(boundaries, (n - 1) as nat) + boundaries[n - 1].support_refs
    }
}

/// All supports of a slice: of its nodes, its edges and its boundaries.
pub open spec fn all_supports(slice: FlowSliceModel) -> Seq<FlowSupportRefModel> {
    node_supports(slice.nodes, slice.nodes.len()) + edge_supports(
        slice.edges,
        slice.edges.len(),
    ) + boundary_supports(slice.boundaries, slice.boundaries.len())
}

fn collect_supports(slice: &FlowSlice) -> (r: Vec<FlowSupportRef>)
    ensures
        r.deep_view() == all_supports(slice.deep_view()),
{
    let ghost m = slice.deep_view();
    let mut all: Vec<FlowSupportRef> = Vec::new();
    assert(all.deep_view() =~= Seq::empty());
    let mut i: usize = 0;
    while i < slice.nodes.len()
        invariant
            i <= slice.nodes.len(),
            m == slice.deep_view(),
            all.deep_view() == node_supports(m.nodes, i as nat),
        decreases slice.nodes.len() - i,
    {
        assert(m.nodes[i as int] == slice.nodes@[i as int].deep_view());
        let ghost before = all.deep_view();
        let mut more = slice.nodes[i].support_refs.copied();
        let ghost added = more.deep_view();
        all.append(&mut more);
        assert(all.deep_view() =~= before + added);
        i = i + 1;
    }
    let ghost nodes = all.deep_view();
    let mut j: usize = 0;
    assert(nodes + Seq::<FlowSupportRefModel>::empty() =~= nodes);
    while j < slice.edges.len()
        invariant
            j <= slice.edges.len(),
            m == slice.deep_view(),
            all.deep_view() == nodes + edge_supports(m.edges, j as nat),
        decreases slice.edges.len() - j,
    {
        assert(m.edges[j as int] == slice.edges@[j as int].deep_view());
        let ghost before = all.deep_view();
        let mut more = slice.edges[j].support_refs.copied();
        let ghost added = more.deep_view();
        all.append(&mut more);
        assert(all.deep_view() =~= before + added);
        assert(before + added =~= nodes + (edge_supports(m.edges, j as nat) + added));
        j = j + 1;
    }
    let ghost edges = all.deep_view();
    let mut k: usize = 0;
    assert(edges + Seq::<FlowSupportRefModel>::empty() =~= edges);
    while k < slice.boundaries.len()
        invariant
            k <= slice.boundaries.len(),
            m == slice.deep_view(),
            all.deep_view() == edges + boundary_supports(m.boundaries, k as nat),
        decreases slice.boundaries.len() - k,
    {
        assert(m.boundaries[k as int] == slice.boundaries@[k as int].deep_view());
        let ghost before = all.deep_view();
        let mut more = slice.boundaries[k].support_refs.copied();
        let ghost added = more.deep_view();
        all.append(&mut more);
        assert(all.deep_view() =~= before + added);
        assert(before + added =~= edges + (boundary_supports(m.boundaries, k as nat) + added));
        k = k + 1;
    }
    all
}

/// Whether a reference is the one that a table of references has under its digest.
pub open spec fn is_entry(table: Seq<CasObjectModel>, reference: CasObjectModel) -> bool {
    record_at::<CasObject>(table, reference.digest) == Some(reference)
}

fn entry_is(table: &Vec<CasObject>, reference: &CasObject) -> (r: bool)
    ensures
        r == is_entry(table.deep_view(), reference.deep_view()),
{
    match find_record(table, reference.digest.as_str()) {
        Some(found) => found.same_as(reference),
        None => false,
    }
}

/// What is reported of the sources of a flow.
pub open spec fn flow_reports() -> SourceReportsModel {
    SourceReportsModel {
        path: "flow source path is not repository-relative"@,
        conflict: "flow source digest has conflicting authority"@,
        host_size: "flow source exceeds host size"@,
        encoding: "flow source evidence is not UTF-8"@,
        outside: "flow source anchor is outside its CAS object"@,
        endpoint: "flow source anchor has one range endpoint"@,
    }
}

/// The sources after a support: its shard, its payload and its generation are the
/// ones of the fact set, and its source, which is added, is the one of its fact.
pub open spec fn support_checked(
    parent: Seq<CasObjectModel>,
    shards: Seq<CasObjectModel>,
    groups: Seq<SourceGroupModel>,
    s: FlowSupportRefModel,
) -> Result<Seq<SourceGroupModel>, ErrorModel> {
    if !is_entry(shards, s.fact_shard_ref) || !is_entry(parent, s.input_payload_ref) || !is_entry(
        parent,
        s.provenance.generation_ref,
    ) || s.provenance.input_payload_ref != s.input_payload_ref {
        corrupted("thread flow support escapes its parent fact set"@)
    } else {
        match s.source {
            None => Ok(groups),
            Some(anchor) => if !is_source_path(anchor.path) {
                corrupted(flow_reports().path)
            } else if s.provenance.source != Some(anchor) || !is_entry(parent, anchor.content_ref) {
                corrupted("thread flow source escapes its parent fact set"@)
            } else {
                grouped(groups, anchor, flow_reports().conflict)
            },
        }
    }
}

/// The sources after the supports from the `i`-th on.
pub open spec fn supports_checked(
    parent: Seq<CasObjectModel>,
    shards: Seq<CasObjectModel>,
    groups: Seq<SourceGroupModel>,
    supports: Seq<FlowSupportRefModel>,
    i: int,
) -> Result<Seq<SourceGroupModel>, ErrorModel>
    decreases supports.len() - i,
{
    if i < 0 || i >= supports.len() {
        Ok(groups)
    } else {
        match support_checked(parent, shards, groups, supports[i]) {
            Err(e) => Err(e),
            Ok(more) => supports_checked(parent, shards, more, supports, i + 1),
        }
    }
}

fn check_support(
    parent: &Vec<CasObject>,
    shards: &Vec<CasObject>,
    groups: &mut Vec<SourceGroup>,
    s: &FlowSupportRef,
) -> (r: Result<(), ClewError>)
    ensures
        match support_checked(
            parent.deep_view(),
            shards.deep_view(),
            old(groups).deep_view(),
            s.deep_view(),
        ) {
            Ok(after) => r is Ok && final(groups).deep_view() == after,
            Err(e) => r is Err && r->Err_0.deep_view() == e,
        },
{
    if !entry_is(shards, &s.fact_shard_ref) || !entry_is(parent, &s.input_payload_ref)
        || !entry_is(parent, &s.provenance.generation_ref)
        || !s.provenance.input_payload_ref.same_as(&s.input_payload_ref) {
        return Err(corrupt("thread flow support escapes its parent fact set"));
    }
    match &s.source {
        None => Ok(()),
        Some(anchor) => {
            if !source_path(anchor.path.as_str()) {
                return Err(corrupt("flow source path is not repository-relative"));
            }
            let own = match &s.provenance.source {
                Some(other) => other.same_as(anchor),
                None => false,
            };
            if !own || !entry_is(parent, &anchor.content_ref) {
                return Err(corrupt("thread flow source escapes its parent fact set"));
            }
            group_anchor(groups, anchor, "flow source digest has conflicting authority")
        },
    }
}

fn check_supports(
    parent: &Vec<CasObject>,
    shards: &Vec<CasObject>,
    supports: &Vec<FlowSupportRef>,
) -> (r: Result<Vec<SourceGroup>, ClewError>)
    ensures
        outcome(r) == supports_checked(
            parent.deep_view(),
            shards.deep_view(),
            Seq::empty(),
            supports.deep_view(),
            0,
        ),
{
    let ghost p = parent.deep_view();
    let ghost f = shards.deep_view();
    let ghost m = supports.deep_view();
    let mut groups: Vec<SourceGroup> = Vec::new();
    assert(groups.deep_view() =~= Seq::empty());
    let mut i: usize = 0;
    while i < supports.len()
        invariant
            i <= supports.len(),
            p == parent.deep_view(),
            f == shards.deep_view(),
            m == supports.deep_view(),
            supports_checked(p, f, Seq::empty(), m, 0) == supports_checked(
                p,
                f,
                groups.deep_view(),
                m,
                i as int,
            ),
        decreases supports.len() - i,
    {
        assert(m[i as int] == supports@[i as int].deep_view());
        check_support(parent, shards, &mut groups, &supports[i])?;
        i = i + 1;
    }
    Ok(groups)
}

/// The payloads after a region: its generation is one of the fact set, and its
/// graph is what its payload refers to.
pub open spec fn region_checked(
    parent: Seq<CasObjectModel>,
    payloads: Seq<CasObjectModel>,
    region: FlowControlRegionModel,
) -> Result<Seq<CasObjectModel>, ErrorModel> {
    if !is_entry(parent, region.support.generation_ref) {
        corrupted("local CFG generation escapes its parent fact set"@)
    } else if reference_to(
        LOCAL_CFG_PAYLOAD_SCHEMA@,
        canonical_bytes(<LocalCfgPayload as Record>::json(region.graph)),
    ) != region.support.payload_ref {
        corrupted("local CFG graph differs from its payload authority"@)
    } else {
        match record_at::<CasObject>(payloads, region.support.payload_ref.digest) {
            None => Ok(entered::<CasObject>(payloads, region.support.payload_ref)),
            Some(known) => if known != region.support.payload_ref {
                corrupted("local CFG payload digest has conflicting authority"@)
            } else {
                Ok(payloads)
            },
        }
    }
}

/// The payloads after the regions from the `i`-th on.
pub open spec fn regions_checked(
    parent: Seq<CasObjectModel>,
    payloads: Seq<CasObjectModel>,
    regions: Seq<FlowControlRegionModel>,
    i: int,
) -> Result<Seq<CasObjectModel>, ErrorModel>
    decreases regions.len() - i,
{
    if i < 0 || i >= regions.len() {
        Ok(payloads)
    } else {
        match region_checked(parent, payloads, regions[i]) {
            Err(e) => Err(e),
            Ok(more) => regions_checked(parent, more, regions, i + 1),
        }
    }
}

fn check_region(
    parent: &Vec<CasObject>,
    payloads: &mut Vec<CasObject>,
    region: &FlowControlRegion,
) -> (r: Result<(), ClewError>)
    ensures
        match region_checked(parent.deep_view(), old(payloads).deep_view(), region.deep_view()) {
            Ok(after) => r is Ok && final(payloads).deep_view() == after,
            Err(e) => r is Err && r->Err_0.deep_view() == e,
        },
{
    if !entry_is(parent, &region.support.generation_ref) {
        return Err(corrupt("local CFG generation escapes its parent fact set"));
    }
    let bytes = region.graph.to_json().bytes();
    if !CasObject::for_bytes(LOCAL_CFG_PAYLOAD_SCHEMA, bytes.as_slice()).same_as(
        &region.support.payload_ref,
    ) {
        return Err(corrupt("local CFG graph differs from its payload authority"));
    }
    let known = match find_record(payloads, region.support.payload_ref.digest.as_str()) {
        Some(known) => {
            if !known.same_as(&region.support.payload_ref) {
                return Err(corrupt("local CFG payload digest has conflicting authority"));
            }
            true
        },
        None => false,
    };
    if !known {
        enter(payloads, region.support.payload_ref.copied());
    }
    Ok(())
}

fn check_regions(parent: &Vec<CasObject>, regions: &Vec<FlowControlRegion>) -> (r: Result<
    Vec<CasObject>,
    ClewError,
>)
    ensures
        outcome(r) == regions_checked(
            parent.deep_view(),
            Seq::empty(),
            regions.deep_view(),
            0,
        ),
{
    let ghost p = parent.deep_view();
    let ghost m = regions.deep_view();
    let mut payloads: Vec<CasObject> = Vec::new();
    assert(payloads.deep_view() =~= Seq::empty());
    let mut i: usize = 0;
    while i < regions.len()
        invariant
            i <= regions.len(),
            p == parent.deep_view(),
            m == regions.deep_view(),
            regions_checked(p, Seq::empty(), m, 0) == regions_checked(
                p,
                payloads.deep_view(),
                m,
                i as int,
            ),
        decreases regions.len() - i,
    {
        assert(m[i as int] == regions@[i as int].deep_view());
        check_region(parent, &mut payloads, &regions[i])?;
        i = i + 1;
    }
    Ok(payloads)
}

/// The bytes of the payloads from the `i`-th on, added to some: each can be read.
pub open spec fn payload_bytes(
    payloads: Seq<CasObjectModel>,
    reads: Seq<ObjectReadModel>,
    total: int,
    i: int,
) -> Result<int, ErrorModel>
    decreases payloads.len() - i,
{
    if i < 0 || i >= payloads.len() {
        Ok(total)
    } else if host_size(payloads[i].size) is None {
        exceeded("local CFG payload exceeds host size"@)
    } else {
        match object_bytes(reads, payloads[i]) {
            Err(e) => Err(e),
            Ok(_) => if total + payloads[i].size > usize::MAX {
                exceeded("local CFG retained bytes overflowed"@)
            } else {
                payload_bytes(payloads, reads, total + payloads[i].size, i + 1)
            },
        }
    }
}

/// The bytes of the objects from the `i`-th on, added to some.
pub open spec fn inherited_bytes(objects: Seq<CasObjectModel>, total: int, i: int) -> Result<
    int,
    ErrorModel,
>
    decreases objects.len() - i,
{
    if i < 0 || i >= objects.len() {
        Ok(total)
    } else if host_size(objects[i].size) is None {
        exceeded("flow parent object exceeds host size"@)
    } else if total + objects[i].size > usize::MAX {
        exceeded("flow retained byte count overflowed"@)
    } else {
        inherited_bytes(objects, total + objects[i].size, i + 1)
    }
}

fn sum_payloads(payloads: &Vec<CasObject>, reads: &Vec<ObjectRead>) -> (r: Result<usize, ClewError>)
    ensures
        match payload_bytes(payloads.deep_view(), reads.deep_view(), 0, 0) {
            Ok(total) => r is Ok && r->Ok_0 == total,
            Err(e) => r is Err && r->Err_0.deep_view() == e,
        },
{
    let ghost m = payloads.deep_view();
    let ghost all = reads.deep_view();
    let mut total: usize = 0;
    let mut i: usize = 0;
    while i < payloads.len()
        invariant
            i <= payloads.len(),
            m == payloads.deep_view(),
            all == reads.deep_view(),
            payload_bytes(m, all, 0, 0) == payload_bytes(m, all, total as int, i as int),
        decreases payloads.len() - i,
    {
        assert(m[i as int] == payloads@[i as int].deep_view());
        let size: usize = match to_host_size(payloads[i].size) {
            Some(size) => size,
            None => {
                return Err(budget("local CFG payload exceeds host size"));
            },
        };
        read_object(reads, &payloads[i])?;
        total = match total.checked_add(size) {
            Some(sum) => sum,
            None => {
                return Err(budget("local CFG retained bytes overflowed"));
            },
        };
        i = i + 1;
    }
    Ok(total)
}

fn sum_inherited(objects: &Vec<CasObject>) -> (r: Result<usize, ClewError>)
    ensures
        match inherited_bytes(objects.deep_view(), 0, 0) {
            Ok(total) => r is Ok && r->Ok_0 == total,
            Err(e) => r is Err && r->Err_0.deep_view() == e,
        },
{
    let ghost m = objects.deep_view();
    let mut total: usize = 0;
    let mut i: usize = 0;
    while i < objects.len()
        invariant
            i <= objects.len(),
            m == objects.deep_view(),
            inherited_bytes(m, 0, 0) == inherited_bytes(m, total as int, i as int),
        decreases objects.len() - i,
    {
        assert(m[i as int] == objects@[i as int].deep_view());
        let size: usize = match to_host_size(objects[i].size) {
            Some(size) => size,
            None => {
                return Err(budget("flow parent object exceeds host size"));
            },
        };
        total = match total.checked_add(size) {
            Some(sum) => sum,
            None => {
                return Err(budget("flow retained byte count overflowed"));
            },
        };
        i = i + 1;
    }
    Ok(total)
}

/// The outcome for what a slice rests on: every support, source and graph belongs
/// to the fact set, all of it fits into the retained bound, and every source holds
/// the places that point into it.
pub open spec fn closure_checked(
    set: PreparedCallableFactSetModel,
    p: PreparedFlowSliceModel,
    slice_published: bool,
    reads: Seq<ObjectReadModel>,
) -> Result<(), ErrorModel> {
    let parent = last_table::<CasObject>(set.authority.direct_cas_closure);
    let shards = last_table::<CasObject>(set.authority.fact_shards);
    match supports_checked(parent, shards, Seq::empty(), all_supports(p.slice), 0) {
        Err(e) => Err(e),
        Ok(groups) => match regions_checked(
            parent,
            Seq::empty(),
            p.slice.control_flow_regions,
            0,
        ) {
            Err(e) => Err(e),
            Ok(payloads) => match payload_bytes(payloads, reads, 0, 0) {
                Err(e) => Err(e),
                Ok(cfg) => match inherited_bytes(set.authority.direct_cas_closure, 0, 0) {
                    Err(e) => Err(e),
                    Ok(inherited) => if inherited + cfg + p.slice_bytes.len()
                        > MAX_FLOW_RETAINED_CLOSURE_BYTES {
                        exceeded("thread flow retained closure exceeds 64 MiB"@)
                    } else if slice_published && object_bytes(reads, p.slice_ref) is Err {
                        Err(object_bytes(reads, p.slice_ref)->Err_0)
                    } else {
                        sources_checked(groups, reads, flow_reports(), 0)
                    },
                },
            },
        },
    }
}

/// Checks what a slice rests on, with the objects that were read for it.
pub fn verify_support_closure(
    fact_set: &PreparedCallableFactSet,
    prepared: &PreparedFlowSlice,
    slice_published: bool,
    reads: &Vec<ObjectRead>,
) -> (r: Result<(), ClewError>)
    ensures
        outcome(r) == closure_checked(
            fact_set.deep_view(),
            prepared.deep_view(),
            slice_published,
            reads.deep_view(),
        ),
{
    let parent = latest_table_of(&fact_set.authority.direct_cas_closure);
    let shards = latest_table_of(&fact_set.authority.fact_shards);
    let supports = collect_supports(&prepared.slice);
    let groups = check_supports(&parent, &shards, &supports)?;
    let payloads = check_regions(&parent, &prepared.slice.control_flow_regions)?;
    let cfg_bytes: usize = sum_payloads(&payloads, reads)?;
    let inherited: usize = sum_inherited(&fact_set.authority.direct_cas_closure)?;
    if inherited.saturating_add(cfg_bytes).saturating_add(prepared.slice_bytes.len())
        > MAX_FLOW_RETAINED_CLOSURE_BYTES {
        return Err(budget("thread flow retained closure exceeds 64 MiB"));
    }
    if slice_published {
        read_object(reads, &prepared.slice_ref)?;
    }
    let reports = SourceReports {
        path: "flow source path is not repository-relative",
        conflict: "flow source digest has conflicting authority",
        host_size: "flow source exceeds host size",
        encoding: "flow source evidence is not UTF-8",
        outside: "flow source anchor is outside its CAS object",
        endpoint: "flow source anchor has one range endpoint",
    };
    assert(reports@ == flow_reports());
    check_sources(&groups, reads, &reports)
}

/// A fact of a generation, with the graph that its payload holds, where it holds
/// one.
pub struct GenerationFact {
    pub fact_key: String,
    pub payload: CasObject,
    pub graph: Option<LocalCfgPayload>,
}

/// The model of a [`GenerationFact`].
pub struct GenerationFactModel {
    pub fact_key: Seq<char>,
    pub payload: CasObjectModel,
    pub graph: Option<LocalCfgPayloadModel>,
}

impl DeepView for GenerationFact {
    type V = GenerationFactModel;

    open spec fn deep_view(&self) -> GenerationFactModel {
        GenerationFactModel {
            fact_key: self.fact_key.deep_view(),
            payload: self.payload.deep_view(),
            graph: self.graph.deep_view(),
        }
    }
}

/// The manifest of a generation: whether its bytes are canonical, and its facts.
pub struct GenerationFacts {
    pub canonical: bool,
    pub facts: Vec<GenerationFact>,
}

/// The model of [`GenerationFacts`].
pub struct GenerationFactsModel {
    pub canonical: bool,
    pub facts: Seq<GenerationFactModel>,
}

impl DeepView for GenerationFacts {
    type V = GenerationFactsModel;

    open spec fn deep_view(&self) -> GenerationFactsModel {
        GenerationFactsModel { canonical: self.canonical, facts: self.facts.deep_view() }
    }
}

/// The graphs by member and callable.
pub type Graphs = Map<(Seq<char>, Seq<char>), PreparedLocalCfgModel>;

/// A graph of a compilation of a member.
pub open spec fn graph_of(
    member_alias: Seq<char>,
    compilation: CallableCompilationBindingModel,
    payload_ref: CasObjectModel,
    graph: LocalCfgPayloadModel,
) -> PreparedLocalCfgModel {
    PreparedLocalCfgModel {
        payload: graph,
        support: LocalCfgSupportModel {
            member_alias,
            compilation_id: compilation.compilation_id,
            generation_ref: compilation.generation_ref,
            payload_ref,
        },
    }
}

/// The graphs after a fact of a generation.
pub open spec fn fact_catalogued(
    graphs: Graphs,
    member_alias: Seq<char>,
    compilation: CallableCompilationBindingModel,
    f: GenerationFactModel,
    reads: Seq<ObjectReadModel>,
) -> Result<Graphs, ErrorModel> {
    if !has_prefix(f.fact_key, "kotlin:local-cfg:"@) {
        Ok(graphs)
    } else if f.payload.object_schema != LOCAL_CFG_PAYLOAD_SCHEMA@ {
        corrupted("local CFG fact has another payload schema"@)
    } else if host_size(f.payload.size) is None {
        exceeded("local CFG payload exceeds host size"@)
    } else if f.payload.size > MAX_LOCAL_CFG_PAYLOAD_BYTES {
        exceeded("local CFG payload exceeds 4 MiB"@)
    } else {
        match object_bytes(reads, f.payload) {
            Err(e) => Err(e),
            Ok(bytes) => match f.graph {
                None => corrupted("local CFG payload is invalid"@),
                Some(graph) => if canonical_bytes(<LocalCfgPayload as Record>::json(graph))
                    != bytes {
                    corrupted("local CFG payload is not canonical"@)
                } else {
                    let g = graph_of(member_alias, compilation, f.payload, graph);
                    match inserted(graphs, g) {
                        Err(e) => Err(e),
                        Ok(_) => Ok(graphs.insert(graph_key(g), g)),
                    }
                },
            },
        }
    }
}

/// The graphs after the facts of a generation from the `i`-th on.
pub open spec fn facts_catalogued(
    graphs: Graphs,
    member_alias: Seq<char>,
    compilation: CallableCompilationBindingModel,
    facts: Seq<GenerationFactModel>,
    reads: Seq<ObjectReadModel>,
    i: int,
) -> Result<Graphs, ErrorModel>
    decreases facts.len() - i,
{
    if i < 0 || i >= facts.len() {
        Ok(graphs)
    } else {
        match fact_catalogued(graphs, member_alias, compilation, facts[i], reads) {
            Err(e) => Err(e),
            Ok(more) => facts_catalogued(more, member_alias, compilation, facts, reads, i + 1),
        }
    }
}

/// The graphs after a compilation with its generation.
pub open spec fn compilation_catalogued(
    graphs: Graphs,
    member_alias: Seq<char>,
    compilation: CallableCompilationBindingModel,
    generation: Option<GenerationFactsModel>,
    reads: Seq<ObjectReadModel>,
) -> Result<Graphs, ErrorModel> {
    if host_size(compilation.generation_ref.size) is None {
        exceeded("flow generation manifest exceeds host size"@)
    } else {
        match object_bytes(reads, compilation.generation_ref) {
            Err(e) => Err(e),
            Ok(_) => match generation {
                None => corrupted("flow generation manifest is invalid"@),
                Some(g) => if compilation.generation_ref.object_schema != GENERATION_SCHEMA@
                    || !g.canonical {
                    corrupted("flow generation manifest is not canonical"@)
                } else {
                    facts_catalogued(graphs, member_alias, compilation, g.facts, reads, 0)
                },
            },
        }
    }
}

/// The generation of the `i`-th compilation, where there is one.
pub open spec fn generation_at(
    generations: Seq<Option<GenerationFactsModel>>,
    i: int,
) -> Option<GenerationFactsModel> {
    if 0 <= i < generations.len() {
        generations[i]
    } else {
        None
    }
}

/// The graphs after the compilations from the `i`-th on.
pub open spec fn compilations_catalogued(
    graphs: Graphs,
    member_alias: Seq<char>,
    compilations: Seq<CallableCompilationBindingModel>,
    generations: Seq<Option<GenerationFactsModel>>,
    reads: Seq<ObjectReadModel>,
    i: int,
) -> Result<Graphs, ErrorModel>
    decreases compilations.len() - i,
{
    if i < 0 || i >= compilations.len() {
        Ok(graphs)
    } else {
        match compilation_catalogued(
            graphs,
            member_alias,
            compilations[i],
            generation_at(generations, i),
            reads,
        ) {
            Err(e) => Err(e),
            Ok(more) => compilations_catalogued(
                more,
                member_alias,
                compilations,
                generations,
                reads,
                i + 1,
            ),
        }
    }
}

/// The graphs of a member, from the generations of its compilations.
pub open spec fn catalog_of(
    set: PreparedCallableFactSetModel,
    member_alias: Seq<char>,
    generations: Seq<Option<GenerationFactsModel>>,
    reads: Seq<ObjectReadModel>,
) -> Result<Graphs, ErrorModel> {
    match record_at::<CallableMemberBinding>(set.authority.members, member_alias) {
        None => refused("flow member has no callable authority"@),
        Some(member) => compilations_catalogued(
            Map::empty(),
            member_alias,
            member.compilations,
            generations,
            reads,
            0,
        ),
    }
}

fn catalog_fact(
    catalog: &mut LocalCfgCatalog,
    member_alias: &str,
    compilation: &CallableCompilationBinding,
    f: &GenerationFact,
    reads: &Vec<ObjectRead>,
) -> (r: Result<(), ClewError>)
    ensures
        match fact_catalogued(
            old(catalog)@,
            member_alias@,
            compilation.deep_view(),
            f.deep_view(),
            reads.deep_view(),
        ) {
            Ok(after) => r is Ok && final(catalog)@ == after,
            Err(e) => r is Err && r->Err_0.deep_view() == e,
        },
{
    if !starts_with(f.fact_key.as_str(), "kotlin:local-cfg:") {
        return Ok(());
    }
    if !same_text(f.payload.object_schema.as_str(), LOCAL_CFG_PAYLOAD_SCHEMA) {
        return Err(corrupt("local CFG fact has another payload schema"));
    }
    let size: usize = match to_host_size(f.payload.size) {
        Some(size) => size,
        None => {
            return Err(budget("local CFG payload exceeds host size"));
        },
    };
    if size > MAX_LOCAL_CFG_PAYLOAD_BYTES {
        return Err(budget("local CFG payload exceeds 4 MiB"));
    }
    let bytes = read_object(reads, &f.payload)?;
    let graph = match &f.graph {
        Some(graph) => graph,
        None => {
            return Err(corrupt("local CFG payload is invalid"));
        },
    };
    if !same_bytes(graph.to_json().bytes().as_slice(), bytes.as_slice()) {
        return Err(corrupt("local CFG payload is not canonical"));
    }
    catalog.insert(
        PreparedLocalCfg {
            payload: graph.copied(),
            support: LocalCfgSupport {
                member_alias: member_alias.to_owned(),
                compilation_id: compilation.compilation_id.clone(),
                generation_ref: compilation.generation_ref.copied(),
                payload_ref: f.payload.copied(),
            },
        },
    )
}

fn catalog_facts(
    catalog: &mut LocalCfgCatalog,
    member_alias: &str,
    compilation: &CallableCompilationBinding,
    facts: &Vec<GenerationFact>,
    reads: &Vec<ObjectRead>,
) -> (r: Result<(), ClewError>)
    ensures
        match facts_catalogued(
            old(catalog)@,
            member_alias@,
            compilation.deep_view(),
            facts.deep_view(),
            reads.deep_view(),
            0,
        ) {
            Ok(after) => r is Ok && final(catalog)@ == after,
            Err(e) => r is Err && r->Err_0.deep_view() == e,
        },
{
    let ghost m = facts.deep_view();
    let ghost c = compilation.deep_view();
    let ghost all = reads.deep_view();
    let mut i: usize = 0;
    while i < facts.len()
        invariant
            i <= facts.len(),
            m == facts.deep_view(),
            c == compilation.deep_view(),
            all == reads.deep_view(),
            facts_catalogued(old(catalog)@, member_alias@, c, m, all, 0) == facts_catalogued(
                catalog@,
                member_alias@,
                c,
                m,
                all,
                i as int,
            ),
        decreases facts.len() - i,
    {
        assert(m[i as int] == facts@[i as int].deep_view());
        catalog_fact(catalog, member_alias, compilation, &facts[i], reads)?;
        i = i + 1;
    }
    Ok(())
}

fn catalog_compilation(
    catalog: &mut LocalCfgCatalog,
    member_alias: &str,
    compilation: &CallableCompilationBinding,
    generation: Option<&GenerationFacts>,
    reads: &Vec<ObjectRead>,
) -> (r: Result<(), ClewError>)
    ensures
        match compilation_catalogued(
            old(catalog)@,
            member_alias@,
            compilation.deep_view(),
            generation.deep_view(),
            reads.deep_view(),
        ) {
            Ok(after) => r is Ok && final(catalog)@ == after,
            Err(e) => r is Err && r->Err_0.deep_view() == e,
        },
{
    if to_host_size(compilation.generation_ref.size).is_none() {
        return Err(budget("flow generation manifest exceeds host size"));
    }
    read_object(reads, &compilation.generation_ref)?;
    match generation {
        None => Err(corrupt("flow generation manifest is invalid")),
        Some(g) => {
            if !same_text(compilation.generation_ref.object_schema.as_str(), GENERATION_SCHEMA)
                || !g.canonical {
                return Err(corrupt("flow generation manifest is not canonical"));
            }
            catalog_facts(catalog, member_alias, compilation, &g.facts, reads)
        },
    }
}

/// The catalog of the graphs of a member, from the generations of its
/// compilations and the objects that were read for them.
pub fn load_cfg_catalog(
    fact_set: &PreparedCallableFactSet,
    member_alias: &str,
    generations: &Vec<Option<GenerationFacts>>,
    reads: &Vec<ObjectRead>,
) -> (r: Result<LocalCfgCatalog, ClewError>)
    ensures
        match catalog_of(
            fact_set.deep_view(),
            member_alias@,
            generations.deep_view(),
            reads.deep_view(),
        ) {
            Ok(graphs) => r is Ok && r->Ok_0@ == graphs,
            Err(e) => r is Err && r->Err_0.deep_view() == e,
        },
{
    let member = match find_record(&fact_set.authority.members, member_alias) {
        Some(member) => member,
        None => {
            return Err(invalid("flow member has no callable authority"));
        },
    };
    let ghost c = member.deep_view().compilations;
    let ghost g = generations.deep_view();
    let ghost all = reads.deep_view();
    let mut catalog = LocalCfgCatalog::default();
    let ghost expected = compilations_catalogued(Map::empty(), member_alias@, c, g, all, 0);
    let mut i: usize = 0;
    while i < member.compilations.len()
        invariant
            i <= member.compilations.len(),
            c == member.deep_view().compilations,
            g == generations.deep_view(),
            all == reads.deep_view(),
            record_at::<CallableMemberBinding>(
                fact_set.deep_view().authority.members,
                member_alias@,
            ) == Some(member.deep_view()),
            expected == compilations_catalogued(Map::empty(), member_alias@, c, g, all, 0),
            expected == compilations_catalogued(catalog@, member_alias@, c, g, all, i as int),
        decreases member.compilations.len() - i,
    {
        assert(c[i as int] == member.compilations@[i as int].deep_view());
        let generation = if i < generations.len() {
            assert(g[i as int] == generations@[i as int].deep_view());
            match &generations[i] {
                Some(generation) => Some(generation),
                None => None,
            }
        } else {
            None
        };
        assert(generation.deep_view() == generation_at(g, i as int));
        catalog_compilation(
            &mut catalog,
            member_alias,
            &member.compilations[i],
            generation,
            reads,
        )?;
        i = i + 1;
    }
    Ok(catalog)
}

/// The request of a thread on its fact set.
pub open spec fn flow_request(
    thread: ThreadAuthorityModel,
    set: PreparedCallableFactSetModel,
    request: ThreadFlowServiceRequestModel,
) -> FlowRequestModel {
    FlowRequestModel {
        thread_id: thread.thread_id,
        thread_authority_digest: thread.authority_digest,
        fact_set_id: set.fact_set_id,
        fact_set_authority_digest: set.authority.authority_digest,
        pair_id: request.pair_id,
        member_alias: request.member_alias,
        root_kind: request.root_kind,
        root: request.root,
        direction: request.direction,
        budgets: frozen_budgets(request.max_depth),
    }
}

/// The slice and the root that are to be published for a request.
pub open spec fn flow_created(
    thread: ThreadAuthorityModel,
    verified: Option<ErrorModel>,
    set: PreparedCallableFactSetModel,
    graphs: Graphs,
    reads: Seq<ObjectReadModel>,
    request: ThreadFlowServiceRequestModel,
) -> Result<(PreparedFlowSliceModel, ThreadFlowRootModel), ErrorModel> {
    match accepted(verified) {
        Err(e) => Err(e),
        Ok(_) => {
            if request.max_depth == 0 || request.max_depth > MAX_FLOW_DEPTH {
                refused("flow max depth must be between one and 32"@)
            } else {
                match flow_built(flow_request(thread, set, request), set, Some(graphs)) {
                    Err(e) => Err(e),
                    Ok(p) => match stdout_bounded(root_of(thread, set, p)) {
                        Err(e) => Err(e),
                        Ok(_) => match closure_checked(set, p, false, reads) {
                            Err(e) => Err(e),
                            Ok(_) => Ok((p, root_of(thread, set, p))),
                        },
                    },
                }
            }
        },
    }
}

/// Builds and checks the slice and the root that are to be published for a
/// request of a thread, given what verifying the thread refused, if anything, on its fact set, the graphs of the member, and the objects
/// that were read.
pub fn create(
    thread: &ThreadAuthority,
    verified: &Option<ClewError>,
    fact_set: &PreparedCallableFactSet,
    cfg: &LocalCfgCatalog,
    reads: &Vec<ObjectRead>,
    request: ThreadFlowServiceRequest,
) -> (r: Result<(PreparedFlowSlice, ThreadFlowRoot), ClewError>)
    ensures
        outcome(r) == flow_created(
            thread.deep_view(),
            verified.deep_view(),
            fact_set.deep_view(),
            cfg@,
            reads.deep_view(),
            request.deep_view(),
        ),
{
    accept(verified)?;
    let budgets = FlowBudgets::frozen(request.max_depth)?;
    let prepared = build_with_cfg(
        FlowRequest {
            thread_id: thread.thread_id.clone(),
            thread_authority_digest: thread.authority_digest.clone(),
            fact_set_id: fact_set.fact_set_id.clone(),
            fact_set_authority_digest: fact_set.authority.authority_digest.clone(),
            pair_id: request.pair_id,
            member_alias: request.member_alias,
            root_kind: request.root_kind,
            root: request.root,
            direction: request.direction,
            budgets,
        },
        fact_set,
        cfg,
    )?;
    proof {
        built_slice_verifies_with_cfg(
            flow_request(thread.deep_view(), fact_set.deep_view(), request.deep_view()),
            fact_set.deep_view(),
            cfg@,
            prepared.deep_view(),
        );
    }
    verify_prepared_with_cfg(&prepared, fact_set, cfg)?;
    let root = root_from_prepared(thread, fact_set, &prepared)?;
    bounded_stdout(&root)?;
    verify_support_closure(fact_set, &prepared, false, reads)?;
    Ok((prepared, root))
}

/// Decides what is to be done to publish a root where some bytes, or none, stand.
pub fn publish(existing: Option<&Vec<u8>>, root: &ThreadFlowRoot) -> (r: Result<
    Publication,
    ClewError,
>)
    ensures
        outcome(r) == publication_of(
            match existing {
                Some(bytes) => Some(bytes@),
                None => None,
            },
            canonical_bytes(<ThreadFlowRoot as Record>::json(root.deep_view())),
            "flow identifier is already bound to another slice"@,
        ),
{
    decide_publication(
        existing,
        &root.to_json().bytes(),
        "flow identifier is already bound to another slice",
    )
}

/// The outcome for the reference that publishing the slice gave.
pub fn confirm_published(published: &CasObject, prepared: &PreparedFlowSlice) -> (r: Result<
    (),
    ClewError,
>)
    ensures
        outcome(r) == (if published.deep_view() == prepared.deep_view().slice_ref {
            Ok(())
        } else {
            corrupted("CAS publication returned another flow slice identity"@)
        }),
{
    if published.same_as(&prepared.slice_ref) {
        Ok(())
    } else {
        Err(corrupt("CAS publication returned another flow slice identity"))
    }
}

/// The outcome of creating the file of a root: where another one was first, it holds
/// the same root.
pub fn confirm_created(created: bool, found: &Vec<u8>, root: &ThreadFlowRoot) -> (r: Result<
    (),
    ClewError,
>)
    ensures
        outcome(r) == creation_settled(
            created,
            found@,
            canonical_bytes(<ThreadFlowRoot as Record>::json(root.deep_view())),
            "thread flow root was concurrently bound to another slice"@,
        ),
{
    settle_creation(
        created,
        found,
        &root.to_json().bytes(),
        "thread flow root was concurrently bound to another slice",
    )
}

/// What was read of a retained flow: the bytes of its root and the root that they
/// hold, the slice that its object holds, and the objects.
pub struct RetainedFlow {
    pub root_bytes: Option<Vec<u8>>,
    pub root: Option<ThreadFlowRoot>,
    pub slice: Option<FlowSlice>,
    pub reads: Vec<ObjectRead>,
}

/// The model of a [`RetainedFlow`].
pub struct RetainedFlowModel {
    pub root_bytes: Option<Seq<u8>>,
    pub root: Option<ThreadFlowRootModel>,
    pub slice: Option<FlowSliceModel>,
    pub reads: Seq<ObjectReadModel>,
}

impl DeepView for RetainedFlow {
    type V = RetainedFlowModel;

    open spec fn deep_view(&self) -> RetainedFlowModel {
        RetainedFlowModel {
            root_bytes: match self.root_bytes {
                Some(bytes) => Some(bytes@),
                None => None,
            },
            root: self.root.deep_view(),
            slice: self.slice.deep_view(),
            reads: self.reads.deep_view(),
        }
    }
}

/// The root of a retained flow, where it is that of the thread and the identifier.
pub open spec fn root_loaded(
    thread: ThreadAuthorityModel,
    flow_id: Seq<char>,
    retained: RetainedFlowModel,
) -> Result<ThreadFlowRootModel, ErrorModel> {
    match flow_id_checked(flow_id) {
        Err(e) => Err(e),
        Ok(_) => match retained.root_bytes {
            None => refused("thread flow root is missing or exceeds 256 KiB"@),
            Some(bytes) => if bytes.len() > MAX_THREAD_FLOW_ROOT_BYTES {
                refused("thread flow root is missing or exceeds 256 KiB"@)
            } else {
                match retained.root {
                    None => corrupted("thread flow root is invalid"@),
                    Some(root) => if canonical_bytes(<ThreadFlowRoot as Record>::json(root))
                        != bytes || root.flow_id != flow_id || root.thread_id != thread.thread_id
                        || root.thread_authority_digest != thread.authority_digest {
                        corrupted("thread flow root authority is invalid"@)
                    } else {
                        match root_checked(root) {
                            Err(e) => Err(e),
                            Ok(_) => Ok(root),
                        }
                    },
                }
            },
        },
    }
}

/// Whether a slice was built without graphs: it has no region, and no boundary asks
/// for the order of control flow.
pub open spec fn is_unordered_slice(slice: FlowSliceModel) -> bool {
    slice.control_flow_regions.len() == 0 && !(exists|i: int|
        0 <= i < slice.boundaries.len() && (#[trigger] slice.boundaries[i]).code
            == "VERIFY_CONTROL_FLOW_ORDER"@)
}

fn unordered_slice(slice: &FlowSlice) -> (r: bool)
    ensures
        r == is_unordered_slice(slice.deep_view()),
{
    let ghost m = slice.deep_view();
    if slice.control_flow_regions.len() > 0 {
        return false;
    }
    let mut i: usize = 0;
    while i < slice.boundaries.len()
        invariant
            i <= slice.boundaries.len(),
            m == slice.deep_view(),
            forall|k: int|
                0 <= k < i ==> (#[trigger] m.boundaries[k]).code != "VERIFY_CONTROL_FLOW_ORDER"@,
        decreases slice.boundaries.len() - i,
    {
        assert(m.boundaries[i as int] == slice.boundaries@[i as int].deep_view());
        if same_text(slice.boundaries[i].code.as_str(), "VERIFY_CONTROL_FLOW_ORDER") {
            return false;
        }
        i = i + 1;
    }
    true
}

/// The retained slice of a root, where it is canonical.
pub open spec fn slice_loaded(
    root: ThreadFlowRootModel,
    set: PreparedCallableFactSetModel,
    retained: RetainedFlowModel,
) -> Result<PreparedFlowSliceModel, ErrorModel> {
    if set.authority.authority_digest != root.fact_set_authority_digest {
        corrupted("thread flow parent fact-set authority changed"@)
    } else if host_size(root.slice_ref.size) is None {
        exceeded("thread flow slice exceeds host size"@)
    } else if root.slice_ref.size > MAX_FLOW_SLICE_BYTES {
        exceeded("thread flow slice exceeds 64 MiB"@)
    } else {
        match object_bytes(retained.reads, root.slice_ref) {
            Err(e) => Err(e),
            Ok(bytes) => match retained.slice {
                None => corrupted("thread flow slice is invalid"@),
                Some(slice) => if canonical_bytes(<FlowSlice as Record>::json(slice)) != bytes {
                    corrupted("thread flow slice is not canonical"@)
                } else {
                    Ok(
                        PreparedFlowSliceModel {
                            slice,
                            slice_bytes: bytes,
                            slice_ref: root.slice_ref,
                            projection: root.projection,
                        },
                    )
                },
            },
        }
    }
}

/// The root of a retained flow, where all that it rests on verifies.
pub open spec fn flow_loaded(
    thread: ThreadAuthorityModel,
    verified: Option<ErrorModel>,
    flow_id: Seq<char>,
    retained: RetainedFlowModel,
    set: PreparedCallableFactSetModel,
    graphs: Graphs,
) -> Result<ThreadFlowRootModel, ErrorModel> {
    match accepted(verified) {
        Err(e) => Err(e),
        Ok(_) => {
            match root_loaded(thread, flow_id, retained) {
                Err(e) => Err(e),
                Ok(root) => match slice_loaded(root, set, retained) {
                    Err(e) => Err(e),
                    Ok(p) => match (if is_unordered_slice(p.slice) {
                        prepared_verified(p, set)
                    } else {
                        prepared_verified_with_cfg(p, set, graphs)
                    }) {
                        Err(e) => Err(e),
                        Ok(_) => if p.slice.request.thread_id != root.thread_id
                            || p.slice.request.thread_authority_digest != root.thread_authority_digest
                            || p.slice.request.fact_set_id != root.fact_set_id
                            || p.slice.request.fact_set_authority_digest
                            != root.fact_set_authority_digest {
                            corrupted("thread flow slice is not bound to its retained root"@)
                        } else {
                            match closure_checked(set, p, true, retained.reads) {
                                Err(e) => Err(e),
                                Ok(_) => Ok(root),
                            }
                        },
                    },
                },
            }
        },
    }
}

/// The root of a retained flow, where it is that of the thread and the identifier: it names
/// the fact set.
pub fn load_root(thread: &ThreadAuthority, flow_id: &str, retained: &RetainedFlow) -> (r: Result<
    ThreadFlowRoot,
    ClewError,
>)
    ensures
        outcome(r) == root_loaded(thread.deep_view(), flow_id@, retained.deep_view()),
{
    validate_flow_id(flow_id)?;
    let bytes = match &retained.root_bytes {
        Some(bytes) => bytes,
        None => {
            return Err(invalid("thread flow root is missing or exceeds 256 KiB"));
        },
    };
    if bytes.len() > MAX_THREAD_FLOW_ROOT_BYTES {
        return Err(invalid("thread flow root is missing or exceeds 256 KiB"));
    }
    let root = match &retained.root {
        Some(root) => root,
        None => {
            return Err(corrupt("thread flow root is invalid"));
        },
    };
    if !same_bytes(root.to_json().bytes().as_slice(), bytes.as_slice()) || !same_text(
        root.flow_id.as_str(),
        flow_id,
    ) || !root.thread_id.same_as(&thread.thread_id) || !root.thread_authority_digest.same_as(
        &thread.authority_digest,
    ) {
        return Err(corrupt("thread flow root authority is invalid"));
    }
    validate_root(root)?;
    Ok(root.copied())
}

fn load_slice(
    root: &ThreadFlowRoot,
    fact_set: &PreparedCallableFactSet,
    retained: &RetainedFlow,
) -> (r: Result<PreparedFlowSlice, ClewError>)
    ensures
        outcome(r) == slice_loaded(
            root.deep_view(),
            fact_set.deep_view(),
            retained.deep_view(),
        ),
{
    if !fact_set.authority.authority_digest.same_as(&root.fact_set_authority_digest) {
        return Err(corrupt("thread flow parent fact-set authority changed"));
    }
    let size: usize = match to_host_size(root.slice_ref.size) {
        Some(size) => size,
        None => {
            return Err(budget("thread flow slice exceeds host size"));
        },
    };
    if size > MAX_FLOW_SLICE_BYTES {
        return Err(budget("thread flow slice exceeds 64 MiB"));
    }
    let bytes = read_object(&retained.reads, &root.slice_ref)?;
    let slice = match &retained.slice {
        Some(slice) => slice,
        None => {
            return Err(corrupt("thread flow slice is invalid"));
        },
    };
    let slice_bytes = slice.to_json().bytes();
    if !same_bytes(slice_bytes.as_slice(), bytes.as_slice()) {
        return Err(corrupt("thread flow slice is not canonical"));
    }
    Ok(
        PreparedFlowSlice {
            slice: slice.copied(),
            slice_bytes,
            slice_ref: root.slice_ref.copied(),
            projection: root.projection.copied(),
        },
    )
}

/// Verifies a retained flow: its root is that of the thread and the identifier,
/// its slice is what its request has on the facts, and all that it rests on is
/// there.
pub fn load(
    thread: &ThreadAuthority,
    verified: &Option<ClewError>,
    flow_id: &str,
    retained: &RetainedFlow,
    fact_set: &PreparedCallableFactSet,
    cfg: &LocalCfgCatalog,
) -> (r: Result<ThreadFlowRoot, ClewError>)
    ensures
        outcome(r) == flow_loaded(
            thread.deep_view(),
            verified.deep_view(),
            flow_id@,
            retained.deep_view(),
            fact_set.deep_view(),
            cfg@,
        ),
{
    accept(verified)?;
    let root = load_root(thread, flow_id, retained)?;
    let prepared = load_slice(&root, fact_set, retained)?;
    if unordered_slice(&prepared.slice) {
        verify_prepared(&prepared, fact_set)?;
    } else {
        verify_prepared_with_cfg(&prepared, fact_set, cfg)?;
    }
    let bound = &prepared.slice.request;
    if !bound.thread_id.same_as(&root.thread_id) || !bound.thread_authority_digest.same_as(
        &root.thread_authority_digest,
    ) || !bound.fact_set_id.same_as(&root.fact_set_id) || !bound.fact_set_authority_digest.same_as(
        &root.fact_set_authority_digest,
    ) {
        return Err(corrupt("thread flow slice is not bound to its retained root"));
    }
    verify_support_closure(fact_set, &prepared, true, &retained.reads)?;
    Ok(root)
}

proof fn shown_members_have_their_length(root: ThreadFlowRootModel)
    ensures
        canonical_bytes(stdout_of(root)).len() >= canonical_bytes(
            JsonModel::Str(root.thread_id),
        ).len() + canonical_bytes(JsonModel::Str(root.thread_authority_digest)).len()
            + canonical_bytes(JsonModel::Str(root.fact_set_id)).len() + canonical_bytes(
            JsonModel::Str(root.fact_set_authority_digest),
        ).len() + canonical_bytes(JsonModel::Str(root.flow_id)).len() + canonical_bytes(
            <CasObject as Record>::json(root.slice_ref),
        ).len() + canonical_bytes(<FlowSliceProjection as Record>::json(root.projection)).len(),
{
    reveal_strlit("schema");
    reveal_strlit("threadId");
    reveal_strlit("threadAuthorityDigest");
    reveal_strlit("factSetId");
    reveal_strlit("factSetAuthorityDigest");
    reveal_strlit("flowId");
    reveal_strlit("sliceRef");
    reveal_strlit("flow");
    let (k0, k1, k2, k3) = ("schema"@, "threadId"@, "threadAuthorityDigest"@, "factSetId"@);
    let (k4, k5, k6, k7) = ("factSetAuthorityDigest"@, "flowId"@, "sliceRef"@, "flow"@);
    assert(k0.len() == 6 && k1.len() == 8 && k2.len() == 21 && k3.len() == 9);
    assert(k4.len() == 22 && k5.len() == 6 && k6.len() == 8 && k7.len() == 4);
    assert(k0[0] == 's' && k5[0] == 'f' && k1[0] == 't' && k6[0] == 's');
    let o = JsonModel::object();
    let v0 = JsonModel::Str(THREAD_FLOW_RESULT_SCHEMA@);
    let v1 = JsonModel::Str(root.thread_id);
    let v2 = JsonModel::Str(root.thread_authority_digest);
    let v3 = JsonModel::Str(root.fact_set_id);
    let v4 = JsonModel::Str(root.fact_set_authority_digest);
    let v5 = JsonModel::Str(root.flow_id);
    let v6 = <CasObject as Record>::json(root.slice_ref);
    let v7 = <FlowSliceProjection as Record>::json(root.projection);
    let o0 = o.with(k0, v0);
    let o1 = o0.with(k1, v1);
    let o2 = o1.with(k2, v2);
    let o3 = o2.with(k3, v3);
    let o4 = o3.with(k4, v4);
    let o5 = o4.with(k5, v5);
    let o6 = o5.with(k6, v6);
    let o7 = o6.with(k7, v7);
    with_adds_length(o, k0, v0);
    with_adds_length(o0, k1, v1);
    with_adds_length(o1, k2, v2);
    with_adds_length(o2, k3, v3);
    with_adds_length(o3, k4, v4);
    with_adds_length(o4, k5, v5);
    with_adds_length(o5, k6, v6);
    with_adds_length(o6, k7, v7);
    object_has_its_length(o7);
}

/// The bytes of a root fit where what is shown of it does.
proof fn shown_roots_fit(root: ThreadFlowRootModel)
    requires
        root.schema == THREAD_FLOW_ROOT_SCHEMA@,
        canonical_bytes(stdout_of(root)).len() <= MAX_FLOW_STDOUT_BYTES,
    ensures
        canonical_bytes(<ThreadFlowRoot as Record>::json(root)).len()
            <= MAX_THREAD_FLOW_ROOT_BYTES,
{
    shown_members_have_their_length(root);
    reveal_strlit("schema");
    reveal_strlit("flowId");
    reveal_strlit("threadId");
    reveal_strlit("threadAuthorityDigest");
    reveal_strlit("factSetId");
    reveal_strlit("factSetAuthorityDigest");
    reveal_strlit("sliceRef");
    reveal_strlit("projection");
    reveal_strlit("codeclew-thread-flow-root/0.1");
    let (k0, k1, k2, k3) = ("schema"@, "flowId"@, "threadId"@, "threadAuthorityDigest"@);
    let (k4, k5, k6, k7) = ("factSetId"@, "factSetAuthorityDigest"@, "sliceRef"@, "projection"@);
    assert(k0.len() == 6 && k1.len() == 6 && k2.len() == 8 && k3.len() == 21);
    assert(k4.len() == 9 && k5.len() == 22 && k6.len() == 8 && k7.len() == 10);
    assert(THREAD_FLOW_ROOT_SCHEMA@.len() == 29);
    literal_is_bounded(k0);
    literal_is_bounded(k1);
    literal_is_bounded(k2);
    literal_is_bounded(k3);
    literal_is_bounded(k4);
    literal_is_bounded(k5);
    literal_is_bounded(k6);
    literal_is_bounded(k7);
    literal_is_bounded(root.schema);
    let o = JsonModel::object();
    let v0 = <String as Record>::json(root.schema);
    let v1 = <String as Record>::json(root.flow_id);
    let v2 = <String as Record>::json(root.thread_id);
    let v3 = <String as Record>::json(root.thread_authority_digest);
    let v4 = <String as Record>::json(root.fact_set_id);
    let v5 = <String as Record>::json(root.fact_set_authority_digest);
    let v6 = <CasObject as Record>::json(root.slice_ref);
    let v7 = <FlowSliceProjection as Record>::json(root.projection);
    let o0 = o.with(k0, v0);
    let o1 = o0.with(k1, v1);
    let o2 = o1.with(k2, v2);
    let o3 = o2.with(k3, v3);
    let o4 = o3.with(k4, v4);
    let o5 = o4.with(k5, v5);
    let o6 = o5.with(k6, v6);
    let o7 = o6.with(k7, v7);
    with_adds_length(o, k0, v0);
    with_adds_length(o0, k1, v1);
    with_adds_length(o1, k2, v2);
    with_adds_length(o2, k3, v3);
    with_adds_length(o3, k4, v4);
    with_adds_length(o4, k5, v5);
    with_adds_length(o5, k6, v6);
    with_adds_length(o6, k7, v7);
    if length_of(o7) > 0 {
        object_has_its_length(o7);
    }
}

/// The payloads of some regions.
pub open spec fn payloads_of(regions: Seq<FlowControlRegionModel>) -> Seq<CasObjectModel> {
    Seq::new(regions.len(), |i: int| regions[i].support.payload_ref)
}

proof fn entries_are_objects(objects: Seq<CasObjectModel>, x: CasObjectModel)
    requires
        is_entry(last_table::<CasObject>(objects), x),
    ensures
        objects.contains(x),
{
    found_is_there::<CasObject>(last_table::<CasObject>(objects), x.digest);
    latest_are_records::<CasObject>(objects, x);
}

proof fn supports_stay_among(
    objects: Seq<CasObjectModel>,
    shards: Seq<CasObjectModel>,
    groups: Seq<SourceGroupModel>,
    supports: Seq<FlowSupportRefModel>,
    i: int,
)
    requires
        0 <= i,
        sources_among(groups, objects),
    ensures
        match supports_checked(last_table::<CasObject>(objects), shards, groups, supports, i) {
            Ok(after) => sources_among(after, objects),
            Err(_) => true,
        },
    decreases supports.len() - i,
{
    let parent = last_table::<CasObject>(objects);
    if i < supports.len() {
        if let Ok(more) = support_checked(parent, shards, groups, supports[i]) {
            if let Some(anchor) = supports[i].source {
                entries_are_objects(objects, anchor.content_ref);
                grouping_stays_among(groups, anchor, flow_reports().conflict, objects);
            }
            supports_stay_among(objects, shards, more, supports, i + 1);
        }
    }
}

proof fn payloads_stay_among(
    parent: Seq<CasObjectModel>,
    payloads: Seq<CasObjectModel>,
    regions: Seq<FlowControlRegionModel>,
    i: int,
)
    requires
        0 <= i,
        forall|k: int|
            0 <= k < payloads.len() ==> payloads_of(regions).contains(#[trigger] payloads[k]),
    ensures
        match regions_checked(parent, payloads, regions, i) {
            Ok(all) => forall|k: int|
                0 <= k < all.len() ==> payloads_of(regions).contains(#[trigger] all[k]),
            Err(_) => true,
        },
    decreases regions.len() - i,
{
    if i < regions.len() {
        if let Ok(more) = region_checked(parent, payloads, regions[i]) {
            let x = regions[i].support.payload_ref;
            assert(payloads_of(regions)[i] == x);
            no_other_record_comes_in::<CasObject>(payloads, x);
            assert forall|k: int| 0 <= k < more.len() implies payloads_of(regions).contains(
                #[trigger] more[k],
            ) by {
                if more[k] != x {
                    assert(payloads.contains(more[k]));
                    let j = choose|j: int| 0 <= j < payloads.len() && payloads[j] == more[k];
                    assert(payloads_of(regions).contains(payloads[j]));
                }
            }
            payloads_stay_among(parent, more, regions, i + 1);
        }
    }
}

proof fn payloads_pass_again(
    payloads: Seq<CasObjectModel>,
    objects: Seq<CasObjectModel>,
    before: Seq<ObjectReadModel>,
    after: Seq<ObjectReadModel>,
    total: int,
    i: int,
)
    requires
        0 <= i,
        forall|k: int| 0 <= k < payloads.len() ==> objects.contains(#[trigger] payloads[k]),
        reads_back(objects, before, after),
        payload_bytes(payloads, before, total, i) is Ok,
    ensures
        payload_bytes(payloads, after, total, i) == payload_bytes(payloads, before, total, i),
    decreases payloads.len() - i,
{
    if i < payloads.len() {
        object_reads_back(objects, before, after, payloads[i]);
        payloads_pass_again(payloads, objects, before, after, total + payloads[i].size, i + 1);
    }
}

/// What a slice rests on passes again where its objects read back, also with the slice.
proof fn closure_passes_again(
    set: PreparedCallableFactSetModel,
    p: PreparedFlowSliceModel,
    before: Seq<ObjectReadModel>,
    after: Seq<ObjectReadModel>,
)
    requires
        closure_checked(set, p, false, before) is Ok,
        reads_back(set.authority.direct_cas_closure, before, after),
        reads_back(payloads_of(p.slice.control_flow_regions), before, after),
        object_bytes(after, p.slice_ref) is Ok,
    ensures
        closure_checked(set, p, true, after) is Ok,
{
    let objects = set.authority.direct_cas_closure;
    let parent = last_table::<CasObject>(objects);
    let shards = last_table::<CasObject>(set.authority.fact_shards);
    let supports = all_supports(p.slice);
    let regions = p.slice.control_flow_regions;
    supports_stay_among(objects, shards, Seq::empty(), supports, 0);
    let groups = supports_checked(parent, shards, Seq::empty(), supports, 0)->Ok_0;
    sources_pass_again(groups, objects, before, after, flow_reports(), 0);
    payloads_stay_among(parent, Seq::empty(), regions, 0);
    let payloads = regions_checked(parent, Seq::empty(), regions, 0)->Ok_0;
    payloads_pass_again(payloads, payloads_of(regions), before, after, 0, 0);
}

/// Whether no other boundary of a slice has the identity of the one that says that the order
/// in the root is to be verified.
pub open spec fn root_order_is_told_apart(slice: FlowSliceModel) -> bool {
    forall|i: int|
        0 <= i < slice.boundaries.len() && (#[trigger] slice.boundaries[i]).boundary_id == order_id(
            slice.request.member_alias,
            slice.request.root,
        ) ==> slice.boundaries[i].code == order_code()
}

/// A slice that was built with graphs is not taken for one that was built without.
pub proof fn ordered_slices_are_told_apart(
    request: FlowRequestModel,
    set: PreparedCallableFactSetModel,
    graphs: Graphs,
    p: PreparedFlowSliceModel,
)
    requires
        flow_built(request, set, Some(graphs)) == Ok::<PreparedFlowSliceModel, ErrorModel>(p),
        root_order_is_told_apart(p.slice),
    ensures
        !is_unordered_slice(p.slice),
{
    graphs_leave_a_mark(request, set, graphs, p);
    built_slice_is_sound(request, set, Some(graphs), p);
    let id = order_id(request.member_alias, request.root);
    let boundaries = p.slice.boundaries;
    if has_key::<FlowBoundary>(boundaries, id) {
        let k = choose|k: int|
            0 <= k < boundaries.len() && FlowBoundary::key(#[trigger] boundaries[k]) == id;
        assert(boundaries[k].boundary_id == id);
        assert(boundaries[k].code == "VERIFY_CONTROL_FLOW_ORDER"@);
    }
}

/// A flow that was created loads again from what was retained of it: from the canonical
/// bytes of its root and from its slice, where the objects of the fact set and the payloads
/// of its graphs read back as they did, and no other boundary has the identity of the order
/// in its root.
pub proof fn created_flow_loads(
    thread: ThreadAuthorityModel,
    verified: Option<ErrorModel>,
    set: PreparedCallableFactSetModel,
    graphs: Graphs,
    reads: Seq<ObjectReadModel>,
    request: ThreadFlowServiceRequestModel,
    p: PreparedFlowSliceModel,
    root: ThreadFlowRootModel,
    retained: RetainedFlowModel,
)
    requires
        flow_created(thread, verified, set, graphs, reads, request) == Ok::<
            (PreparedFlowSliceModel, ThreadFlowRootModel),
            ErrorModel,
        >((p, root)),
        retained.root == Some(root),
        retained.root_bytes == Some(canonical_bytes(<ThreadFlowRoot as Record>::json(root))),
        retained.slice == Some(p.slice),
        object_bytes(retained.reads, p.slice_ref) == Ok::<Seq<u8>, ErrorModel>(p.slice_bytes),
        reads_back(set.authority.direct_cas_closure, reads, retained.reads),
        reads_back(payloads_of(p.slice.control_flow_regions), reads, retained.reads),
        root_order_is_told_apart(p.slice),
    ensures
        flow_loaded(thread, verified, root.flow_id, retained, set, graphs) == Ok::<
            ThreadFlowRootModel,
            ErrorModel,
        >(root),
{
    let asked = flow_request(thread, set, request);
    built_slice_verifies_with_cfg(asked, set, graphs, p);
    built_slice_is_sound(asked, set, Some(graphs), p);
    ordered_slices_are_told_apart(asked, set, graphs, p);
    shown_roots_fit(root);
    closure_passes_again(set, p, reads, retained.reads);
    assert(p.slice_ref == reference_to(FLOW_SLICE_SCHEMA@, p.slice_bytes));
    assert(p.slice_ref.size == p.slice_bytes.len());
}

/// What is shown of a root fits in its bound, with the line feed behind it.
pub proof fn shown_lines_are_bounded(root: ThreadFlowRootModel, value: JsonModel)
    requires
        stdout_bounded(root) == Ok::<JsonModel, ErrorModel>(value),
    ensures
        canonical_bytes(value).len() + 1 <= MAX_FLOW_STDOUT_BYTES,
{
}

} // verus!
