//! What makes a local control-flow graph valid: one entry, a node where control leaves it, no
//! node twice, no edge into nothing, and a way from the entry to every node that is not dead.

use vstd::prelude::*;
use vstd::string::*;

use crate::canonical::json_digest;
use crate::identity::full_symbol_checked;
use crate::json::{member_is_there, JsonModel};
use crate::record::Record;
use crate::text::{is_digest, is_plain, is_relative_path};
use crate::thread_flow_cfg::{
    all_reachable, boundary_file_checked, boundary_name_checked, boundary_owner_checked,
    boundary_validated, count_nodes, edge_less, edges_checked, entry_count, entry_of, has_node,
    is_boundary_key, is_terminal, kind_rank, label_less, nodes_checked, provider_gives_code, reaches, reaches_in, steps, terminal_count,
    texts_checked, validated, LocalCfgEdgeModel, LocalCfgNodeModel, LocalCfgNodeRole,
    LocalCfgPayload, LocalCfgPayloadModel,
};

verus! {

/// Whether the nodes of a graph stand in the order of their numbers, each number once, and
/// none has an empty source.
pub open spec fn has_fit_nodes(p: LocalCfgPayloadModel) -> bool {
    &&& 1 <= p.nodes.len() <= 4096
    &&& forall|i: int, j: int|
        0 <= i < j < p.nodes.len() ==> (#[trigger] p.nodes[i]).node_id < (
        #[trigger] p.nodes[j]).node_id
    &&& forall|i: int|
        0 <= i < p.nodes.len() ==> match (#[trigger] p.nodes[i]).source {
            Some(source) => source.start < source.end,
            None => true,
        }
}

/// Whether a graph has one entry, and a node where control leaves it.
pub open spec fn has_fit_ends(p: LocalCfgPayloadModel) -> bool {
    &&& exists|i: int| #[trigger] is_only_entry(p, i)
    &&& exists|i: int|
        0 <= i < p.nodes.len() && match (#[trigger] p.nodes[i]).role {
            LocalCfgNodeRole::Exit => true,
            LocalCfgNodeRole::Return => true,
            LocalCfgNodeRole::Throw => true,
            _ => false,
        }
}

/// Whether a node is the entry of a graph, and no other one is.
pub open spec fn is_only_entry(p: LocalCfgPayloadModel, i: int) -> bool {
    &&& 0 <= i < p.nodes.len()
    &&& p.nodes[i].role == LocalCfgNodeRole::Entry
    &&& forall|j: int|
        0 <= j < p.nodes.len() && (#[trigger] p.nodes[j]).role == LocalCfgNodeRole::Entry ==> j == i
}

/// Whether an edge stands before another one: by where it starts, where it ends, its kind and
/// its label.
pub open spec fn stands_before(a: LocalCfgEdgeModel, b: LocalCfgEdgeModel) -> bool {
    ||| a.source_node_id < b.source_node_id
    ||| a.source_node_id == b.source_node_id && {
        ||| a.target_node_id < b.target_node_id
        ||| a.target_node_id == b.target_node_id && {
            ||| a.kind != b.kind && kind_rank(a.kind) < kind_rank(b.kind)
            ||| a.kind == b.kind && label_less(a.label, b.label)
        }
    }
}

/// Whether every edge of a graph joins two of its nodes, has a plain label or none, and stands
/// behind the one before.
pub open spec fn has_fit_edges(p: LocalCfgPayloadModel) -> bool {
    p.edges.len() <= 8192 && forall|i: int|
        0 <= i < p.edges.len() ==> #[trigger] is_fit_edge(p.nodes, p.edges, i)
}

/// Whether an edge joins two nodes, has a plain label or none, and stands behind the one
/// before.
pub open spec fn is_fit_edge(
    nodes: Seq<LocalCfgNodeModel>,
    edges: Seq<LocalCfgEdgeModel>,
    i: int,
) -> bool {
    let e = edges[i];
    &&& exists|k: int| 0 <= k < nodes.len() && (#[trigger] nodes[k]).node_id == e.source_node_id
    &&& exists|k: int| 0 <= k < nodes.len() && (#[trigger] nodes[k]).node_id == e.target_node_id
    &&& match e.label {
        Some(label) => is_plain(label, 512),
        None => true,
    }
    &&& i > 0 ==> stands_before(edges[i - 1], e)
}

/// Whether numbers of nodes are a way: each edge of it is one of the graph.
pub open spec fn is_way(edges: Seq<LocalCfgEdgeModel>, way: Seq<u64>) -> bool {
    way.len() > 0 && forall|i: int| 0 <= i < way.len() - 1 ==> #[trigger] is_step(edges, way, i)
}

/// Whether an edge leads from one node of a way to the next.
pub open spec fn is_step(edges: Seq<LocalCfgEdgeModel>, way: Seq<u64>, i: int) -> bool {
    exists|k: int|
        0 <= k < edges.len() && (#[trigger] edges[k]).source_node_id == way[i]
            && edges[k].target_node_id == way[i + 1]
}

/// Whether a way leads from one node to another.
pub open spec fn has_way(edges: Seq<LocalCfgEdgeModel>, from: u64, to: u64) -> bool {
    exists|way: Seq<u64>| #[trigger] is_way(edges, way) && way[0] == from && way.last() == to
}

/// Whether there is a way from the entry to every node that is not dead.
pub open spec fn has_live_nodes(p: LocalCfgPayloadModel) -> bool {
    forall|i: int, j: int|
        #![trigger is_only_entry(p, i), p.nodes[j]]
        is_only_entry(p, i) && 0 <= j < p.nodes.len() && p.nodes[j].role != LocalCfgNodeRole::Dead
            ==> has_way(p.edges, p.nodes[i].node_id, p.nodes[j].node_id)
}

/// Whether the texts of a graph are what they have to be.
pub open spec fn has_fit_texts(p: LocalCfgPayloadModel) -> bool {
    &&& p.schema == "local-cfg/0.1"@
    &&& p.provider == "K2_FIR_CFG"@
    &&& p.source_provenance == "COMPILER_UTF16_RANGE_TO_UTF8_BYTES"@
    &&& full_symbol_checked(p.owner_symbol_identity) is Ok
    &&& is_plain(p.file, 4096)
    &&& is_relative_path(p.file)
    &&& is_plain(p.compiler_graph_name, 512)
}

/// Whether a graph has the digest of itself, without its identity, as its identity.
pub open spec fn has_own_identity(p: LocalCfgPayloadModel) -> bool {
    p.graph_id == json_digest(
        <LocalCfgPayload as Record>::json(LocalCfgPayloadModel { graph_id: Seq::empty(), ..p }),
    )
}

spec fn is_fit_node(nodes: Seq<LocalCfgNodeModel>, k: int) -> bool {
    &&& k > 0 ==> nodes[k - 1].node_id < nodes[k].node_id
    &&& match nodes[k].source {
        Some(source) => source.start < source.end,
        None => true,
    }
}

proof fn nodes_are_fit(nodes: Seq<LocalCfgNodeModel>, i: int)
    requires
        0 <= i <= nodes.len(),
    ensures
        nodes_checked(nodes, i) is Ok <==> forall|k: int|
            i <= k < nodes.len() ==> #[trigger] is_fit_node(nodes, k),
    decreases nodes.len() - i,
{
    if i < nodes.len() {
        nodes_are_fit(nodes, i + 1);
        assert(is_fit_node(nodes, i) == !(i > 0 && nodes[i - 1].node_id >= nodes[i].node_id || (
        nodes[i].source matches Some(source) && source.end <= source.start)));
    }
}

proof fn growing(nodes: Seq<LocalCfgNodeModel>, i: int, j: int)
    requires
        0 <= i < j < nodes.len(),
        forall|k: int| 0 <= k < nodes.len() ==> #[trigger] is_fit_node(nodes, k),
    ensures
        nodes[i].node_id < nodes[j].node_id,
    decreases j - i,
{
    assert(is_fit_node(nodes, j));
    if i < j - 1 {
        growing(nodes, i, j - 1);
    }
}

proof fn none_counted(nodes: Seq<LocalCfgNodeModel>, counts: spec_fn(LocalCfgNodeRole) -> bool)
    ensures
        count_nodes(nodes, counts) == 0 <==> forall|k: int|
            0 <= k < nodes.len() ==> !counts((#[trigger] nodes[k]).role),
    decreases nodes.len(),
{
    if nodes.len() > 0 {
        let before = nodes.drop_last();
        none_counted(before, counts);
        let last = nodes.len() - 1;
        assert(nodes.last() == nodes[last]);
        assert forall|k: int| 0 <= k < before.len() implies #[trigger] before[k] == nodes[k] by {}
        if count_nodes(nodes, counts) == 0 {
            assert forall|k: int| 0 <= k < nodes.len() implies !counts((#[trigger] nodes[k]).role) by {
                if k < last {
                    assert(before[k] == nodes[k]);
                }
            }
        }
    }
}

spec fn only_counted(
    nodes: Seq<LocalCfgNodeModel>,
    counts: spec_fn(LocalCfgNodeRole) -> bool,
    i: int,
) -> bool {
    &&& 0 <= i < nodes.len()
    &&& counts(nodes[i].role)
    &&& forall|j: int| 0 <= j < nodes.len() && counts((#[trigger] nodes[j]).role) ==> j == i
}

proof fn one_counted(nodes: Seq<LocalCfgNodeModel>, counts: spec_fn(LocalCfgNodeRole) -> bool)
    ensures
        count_nodes(nodes, counts) == 1 <==> exists|i: int| #[trigger]
            only_counted(nodes, counts, i),
    decreases nodes.len(),
{
    if nodes.len() > 0 {
        let before = nodes.drop_last();
        one_counted(before, counts);
        none_counted(before, counts);
        let last = nodes.len() - 1;
        assert(nodes.last() == nodes[last]);
        assert forall|k: int| 0 <= k < before.len() implies #[trigger] before[k] == nodes[k] by {}
        if count_nodes(nodes, counts) == 1 {
            if counts(nodes[last].role) {
                assert forall|j: int|
                    0 <= j < nodes.len() && counts((#[trigger] nodes[j]).role) implies j == last by {
                    if j < last {
                        assert(before[j] == nodes[j]);
                    }
                }
                assert(only_counted(nodes, counts, last));
            } else {
                let i = choose|i: int| #[trigger] only_counted(before, counts, i);
                assert(nodes[i] == before[i]);
                assert forall|j: int|
                    0 <= j < nodes.len() && counts((#[trigger] nodes[j]).role) implies j == i by {
                    if j < last {
                        assert(before[j] == nodes[j]);
                    }
                }
                assert(only_counted(nodes, counts, i));
            }
        }
        if exists|i: int| #[trigger] only_counted(nodes, counts, i) {
            let i = choose|i: int| #[trigger] only_counted(nodes, counts, i);
            if i == last {
                assert forall|k: int| 0 <= k < before.len() implies !counts(
                    (#[trigger] before[k]).role,
                ) by {
                    assert(before[k] == nodes[k]);
                }
            } else {
                assert(before[i] == nodes[i]);
                assert(!counts(nodes[last].role));
                assert forall|j: int|
                    0 <= j < before.len() && counts((#[trigger] before[j]).role) implies j == i by {
                    assert(before[j] == nodes[j]);
                }
                assert(only_counted(before, counts, i));
            }
        }
    }
}

proof fn edges_are_fit(nodes: Seq<LocalCfgNodeModel>, edges: Seq<LocalCfgEdgeModel>, i: int)
    requires
        0 <= i <= edges.len(),
    ensures
        edges_checked(nodes, edges, i) is Ok <==> forall|k: int|
            i <= k < edges.len() ==> #[trigger] is_fit_edge(nodes, edges, k),
    decreases edges.len() - i,
{
    if i < edges.len() {
        edges_are_fit(nodes, edges, i + 1);
        if i > 0 {
            assert(edge_less(edges[i - 1], edges[i]) == stands_before(edges[i - 1], edges[i]));
        }
        if edges_checked(nodes, edges, i) is Ok {
            assert(is_fit_edge(nodes, edges, i));
            assert forall|k: int| i <= k < edges.len() implies #[trigger] is_fit_edge(
                nodes,
                edges,
                k,
            ) by {}
        }
        if is_fit_edge(nodes, edges, i) {
            assert(has_node(nodes, edges[i].source_node_id));
            assert(has_node(nodes, edges[i].target_node_id));
        }
    }
}

proof fn ways_are_reached(edges: Seq<LocalCfgEdgeModel>, way: Seq<u64>)
    requires
        is_way(edges, way),
    ensures
        reaches_in(edges, way[0], way.last(), (way.len() - 1) as nat),
    decreases way.len(),
{
    if way.len() > 1 {
        let before = way.drop_last();
        assert(is_way(edges, before)) by {
            assert forall|i: int| 0 <= i < before.len() - 1 implies #[trigger] is_step(
                edges,
                before,
                i,
            ) by {
                assert(is_step(edges, way, i));
                assert(before[i] == way[i] && before[i + 1] == way[i + 1]);
                let k = choose|k: int|
                    0 <= k < edges.len() && (#[trigger] edges[k]).source_node_id == way[i]
                        && edges[k].target_node_id == way[i + 1];
                assert(edges[k].source_node_id == before[i]);
            }
        }
        ways_are_reached(edges, before);
        let n = way.len() - 2;
        assert(way[n] == before.last());
        assert(is_step(edges, way, n));
        let k = choose|k: int|
            0 <= k < edges.len() && (#[trigger] edges[k]).source_node_id == way[n]
                && edges[k].target_node_id == way[n + 1];
        assert(steps(edges, before.last(), way.last()));
    }
}

proof fn reached_by_way(edges: Seq<LocalCfgEdgeModel>, from: u64, to: u64, n: nat) -> (way: Seq<u64>)
    requires
        reaches_in(edges, from, to, n),
    ensures
        is_way(edges, way),
        way[0] == from,
        way.last() == to,
    decreases n,
{
    if n == 0 {
        seq![from]
    } else {
        let via = choose|via: u64|
            reaches_in(edges, from, via, (n - 1) as nat) && #[trigger] steps(edges, via, to);
        let before = reached_by_way(edges, from, via, (n - 1) as nat);
        let way = before.push(to);
        assert forall|i: int| 0 <= i < way.len() - 1 implies #[trigger] is_step(edges, way, i) by {
            if i < before.len() - 1 {
                assert(is_step(edges, before, i));
                assert(way[i] == before[i] && way[i + 1] == before[i + 1]);
                let k = choose|k: int|
                    0 <= k < edges.len() && (#[trigger] edges[k]).source_node_id == before[i]
                        && edges[k].target_node_id == before[i + 1];
                assert(edges[k].source_node_id == way[i]);
            } else {
                let k = choose|k: int|
                    0 <= k < edges.len() && (#[trigger] edges[k]).source_node_id == via
                        && edges[k].target_node_id == to;
                assert(edges[k].source_node_id == way[i]);
            }
        }
        way
    }
}

proof fn ways_and_reach(edges: Seq<LocalCfgEdgeModel>, from: u64, to: u64)
    ensures
        reaches(edges, from, to) == has_way(edges, from, to),
{
    if reaches(edges, from, to) {
        let n = choose|n: nat| reaches_in(edges, from, to, n);
        let way = reached_by_way(edges, from, to, n);
        assert(is_way(edges, way));
    }
    if has_way(edges, from, to) {
        let way = choose|way: Seq<u64>| #[trigger]
            is_way(edges, way) && way[0] == from && way.last() == to;
        ways_are_reached(edges, way);
    }
}

proof fn entry_is_found(nodes: Seq<LocalCfgNodeModel>, i: int)
    requires
        0 <= i < nodes.len(),
        nodes[i].role == LocalCfgNodeRole::Entry,
        forall|j: int|
            0 <= j < nodes.len() && (#[trigger] nodes[j]).role == LocalCfgNodeRole::Entry ==> j == i,
    ensures
        entry_of(nodes) == nodes[i].node_id,
    decreases nodes.len(),
{
    if nodes[0].role != LocalCfgNodeRole::Entry {
        let rest = nodes.drop_first();
        assert(rest[i - 1] == nodes[i]);
        assert forall|j: int|
            0 <= j < rest.len() && (#[trigger] rest[j]).role == LocalCfgNodeRole::Entry implies j
            == i - 1 by {
            assert(rest[j] == nodes[j + 1]);
        }
        entry_is_found(rest, i - 1);
    }
}

proof fn fit_nodes(p: LocalCfgPayloadModel)
    ensures
        (nodes_checked(p.nodes, 0) is Ok && 1 <= p.nodes.len() <= 4096) == has_fit_nodes(p),
{
    let nodes = p.nodes;
    nodes_are_fit(nodes, 0);
    if nodes_checked(nodes, 0) is Ok {
        assert forall|i: int, j: int| 0 <= i < j < nodes.len() implies (
        #[trigger] nodes[i]).node_id < (#[trigger] nodes[j]).node_id by {
            growing(nodes, i, j);
        }
        assert forall|i: int| 0 <= i < nodes.len() implies match (#[trigger] nodes[i]).source {
            Some(source) => source.start < source.end,
            None => true,
        } by {
            assert(is_fit_node(nodes, i));
        }
    }
    if has_fit_nodes(p) {
        assert forall|k: int| 0 <= k < nodes.len() implies #[trigger] is_fit_node(nodes, k) by {
            assert(p.nodes[k] == nodes[k]);
            if k > 0 {
                assert(p.nodes[k - 1].node_id < p.nodes[k].node_id);
            }
        }
    }
}

proof fn fit_ends(p: LocalCfgPayloadModel)
    ensures
        (entry_count(p.nodes) == 1 && terminal_count(p.nodes) > 0) == has_fit_ends(p),
{
    let nodes = p.nodes;
    let is_entry = |role: LocalCfgNodeRole| role == LocalCfgNodeRole::Entry;
    let ends = |role: LocalCfgNodeRole| is_terminal(role);
    one_counted(nodes, is_entry);
    none_counted(nodes, ends);
    assert forall|i: int| #[trigger] only_counted(nodes, is_entry, i) == is_only_entry(p, i) by {
        if only_counted(nodes, is_entry, i) {
            assert forall|j: int|
                0 <= j < p.nodes.len() && (#[trigger] p.nodes[j]).role
                    == LocalCfgNodeRole::Entry implies j == i by {
                assert(is_entry(nodes[j].role));
            }
        }
    }
    if entry_count(nodes) == 1 {
        let i = choose|i: int| #[trigger] only_counted(nodes, is_entry, i);
        assert(is_only_entry(p, i));
    }
    if exists|i: int| #[trigger] is_only_entry(p, i) {
        let i = choose|i: int| #[trigger] is_only_entry(p, i);
        assert(only_counted(nodes, is_entry, i));
    }
    assert forall|i: int| 0 <= i < nodes.len() implies ends((#[trigger] nodes[i]).role) == (
    match nodes[i].role {
        LocalCfgNodeRole::Exit => true,
        LocalCfgNodeRole::Return => true,
        LocalCfgNodeRole::Throw => true,
        _ => false,
    }) by {}
    if terminal_count(nodes) > 0 {
        let i = choose|i: int| 0 <= i < nodes.len() && ends((#[trigger] nodes[i]).role);
        assert(ends(nodes[i].role));
    }
}

proof fn live_nodes(p: LocalCfgPayloadModel, i: int)
    requires
        is_only_entry(p, i),
    ensures
        all_reachable(p) == has_live_nodes(p),
{
    let nodes = p.nodes;
    entry_is_found(nodes, i);
    if all_reachable(p) {
        assert forall|a: int, j: int|
            #![trigger is_only_entry(p, a), p.nodes[j]]
            is_only_entry(p, a) && 0 <= j < p.nodes.len() && p.nodes[j].role
                != LocalCfgNodeRole::Dead implies has_way(
            p.edges,
            p.nodes[a].node_id,
            p.nodes[j].node_id,
        ) by {
            assert(a == i);
            assert(reaches(p.edges, entry_of(nodes), p.nodes[j].node_id));
            ways_and_reach(p.edges, p.nodes[i].node_id, p.nodes[j].node_id);
        }
    }
    if has_live_nodes(p) {
        assert forall|k: int|
            0 <= k < nodes.len() && (#[trigger] nodes[k]).role
                != LocalCfgNodeRole::Dead implies reaches(
            p.edges,
            entry_of(nodes),
            nodes[k].node_id,
        ) by {
            assert(is_only_entry(p, i));
            assert(has_way(p.edges, p.nodes[i].node_id, p.nodes[k].node_id));
            ways_and_reach(p.edges, p.nodes[i].node_id, p.nodes[k].node_id);
        }
    }
}

/// A graph is valid exactly where its texts, its nodes and its edges are fit, it has one entry
/// and a node where control leaves it, there is a way from the entry to every node that is not
/// dead, and its identity is its own.
pub proof fn graphs_are_valid_where_they_are_fit(p: LocalCfgPayloadModel)
    ensures
        validated(p) is Ok <==> has_fit_texts(p) && has_fit_nodes(p) && has_fit_ends(p)
            && has_fit_edges(p) && has_live_nodes(p) && has_own_identity(p),
{
    fit_nodes(p);
    fit_ends(p);
    edges_are_fit(p.nodes, p.edges, 0);
    assert(texts_checked(p) is Ok == has_fit_texts(p));
    if has_fit_ends(p) {
        let i = choose|i: int| #[trigger] is_only_entry(p, i);
        live_nodes(p, i);
    }
}

/// Whether what a boundary says under a key is a text, and which one.
pub open spec fn says(value: JsonModel, key: Seq<char>, text: Seq<char>) -> bool {
    value.get(key) == Some(JsonModel::Str(text))
}

/// Whether a boundary has a code of the provider that it names.
pub open spec fn has_fit_code(value: JsonModel) -> bool {
    ||| says(value, "provider"@, "K2_FIR_CFG"@) && {
        ||| says(value, "code"@, "INVALID_LOCAL_CFG_IDENTITY"@)
        ||| says(value, "code"@, "UNSUPPORTED_LOCAL_CFG_NODE"@)
        ||| says(value, "code"@, "UNSUPPORTED_LOCAL_CFG_EDGE"@)
        ||| says(value, "code"@, "LOCAL_CFG_BUDGET_EXCEEDED"@)
        ||| says(value, "code"@, "INVALID_LOCAL_CFG_TOPOLOGY"@)
        ||| says(value, "code"@, "NO_SOURCE_FUNCTION"@)
        ||| says(value, "code"@, "LOCAL_CFG_NORMALIZATION_FAILED"@)
        ||| says(value, "code"@, "DUPLICATE_LOCAL_CFG_OWNER"@)
    }
    ||| says(value, "provider"@, "CODECLEW_LOCAL_CFG_NORMALIZER"@) && {
        ||| says(value, "code"@, "INVALID_LOCAL_CFG"@)
        ||| says(value, "code"@, "UNPROVEN_LOCAL_CFG_OWNER"@)
    }
}

/// Whether a boundary says nothing under keys that it does not have.
pub open spec fn has_known_keys(value: JsonModel) -> bool {
    forall|key: Seq<char>|
        (#[trigger] value.get(key)) is Some ==> {
            ||| key == "schema"@
            ||| key == "stage"@
            ||| key == "resolution"@
            ||| key == "sourceProvenance"@
            ||| key == "provider"@
            ||| key == "code"@
            ||| key == "rawRowHash"@
            ||| key == "file"@
            ||| key == "ownerSymbolIdentity"@
            ||| key == "compilerGraphName"@
        }
}

/// Whether what a boundary may say is what it has to be, where it says it.
pub open spec fn has_fit_places(value: JsonModel) -> bool {
    &&& match value.get("file"@) {
        Some(JsonModel::Str(file)) => is_plain(file, 4096) && is_relative_path(file)
            && !file.contains('\\'),
        Some(_) => false,
        None => true,
    }
    &&& match value.get("ownerSymbolIdentity"@) {
        Some(JsonModel::Str(owner)) => full_symbol_checked(owner) is Ok,
        Some(_) => false,
        None => true,
    }
    &&& match value.get("compilerGraphName"@) {
        Some(JsonModel::Str(name)) => is_plain(name, 512),
        Some(_) => false,
        None => true,
    }
}

/// Whether a value is a boundary of a local control-flow graph.
pub open spec fn is_fit_boundary(value: JsonModel) -> bool {
    &&& value is Obj
    &&& has_known_keys(value)
    &&& says(value, "schema"@, "local-cfg-boundary/0.1"@)
    &&& says(value, "stage"@, "NORMALIZE"@)
    &&& says(value, "resolution"@, "UNKNOWN"@)
    &&& says(value, "sourceProvenance"@, "COMPILER_UTF16_RANGE_TO_UTF8_BYTES"@)
    &&& has_fit_code(value)
    &&& match value.get("rawRowHash"@) {
        Some(JsonModel::Str(digest)) => is_digest(digest),
        _ => false,
    }
    &&& has_fit_places(value)
}

proof fn codes_differ()
    ensures
        "INVALID_LOCAL_CFG_IDENTITY"@ != "INVALID_LOCAL_CFG"@,
        "INVALID_LOCAL_CFG_IDENTITY"@ != "UNPROVEN_LOCAL_CFG_OWNER"@,
        "UNSUPPORTED_LOCAL_CFG_NODE"@ != "INVALID_LOCAL_CFG"@,
        "UNSUPPORTED_LOCAL_CFG_NODE"@ != "UNPROVEN_LOCAL_CFG_OWNER"@,
        "UNSUPPORTED_LOCAL_CFG_EDGE"@ != "INVALID_LOCAL_CFG"@,
        "UNSUPPORTED_LOCAL_CFG_EDGE"@ != "UNPROVEN_LOCAL_CFG_OWNER"@,
        "LOCAL_CFG_BUDGET_EXCEEDED"@ != "INVALID_LOCAL_CFG"@,
        "LOCAL_CFG_BUDGET_EXCEEDED"@ != "UNPROVEN_LOCAL_CFG_OWNER"@,
        "INVALID_LOCAL_CFG_TOPOLOGY"@ != "INVALID_LOCAL_CFG"@,
        "INVALID_LOCAL_CFG_TOPOLOGY"@ != "UNPROVEN_LOCAL_CFG_OWNER"@,
        "NO_SOURCE_FUNCTION"@ != "INVALID_LOCAL_CFG"@,
        "NO_SOURCE_FUNCTION"@ != "UNPROVEN_LOCAL_CFG_OWNER"@,
        "LOCAL_CFG_NORMALIZATION_FAILED"@ != "INVALID_LOCAL_CFG"@,
        "LOCAL_CFG_NORMALIZATION_FAILED"@ != "UNPROVEN_LOCAL_CFG_OWNER"@,
        "DUPLICATE_LOCAL_CFG_OWNER"@ != "INVALID_LOCAL_CFG"@,
        "DUPLICATE_LOCAL_CFG_OWNER"@ != "UNPROVEN_LOCAL_CFG_OWNER"@,
{
    reveal_strlit("INVALID_LOCAL_CFG_IDENTITY");
    reveal_strlit("UNSUPPORTED_LOCAL_CFG_NODE");
    reveal_strlit("UNSUPPORTED_LOCAL_CFG_EDGE");
    reveal_strlit("LOCAL_CFG_BUDGET_EXCEEDED");
    reveal_strlit("INVALID_LOCAL_CFG_TOPOLOGY");
    reveal_strlit("NO_SOURCE_FUNCTION");
    reveal_strlit("LOCAL_CFG_NORMALIZATION_FAILED");
    reveal_strlit("DUPLICATE_LOCAL_CFG_OWNER");
    reveal_strlit("INVALID_LOCAL_CFG");
    reveal_strlit("UNPROVEN_LOCAL_CFG_OWNER");
    assert("INVALID_LOCAL_CFG_IDENTITY"@.len() == 26);
    assert("UNSUPPORTED_LOCAL_CFG_NODE"@.len() == 26);
    assert("UNSUPPORTED_LOCAL_CFG_EDGE"@.len() == 26);
    assert("LOCAL_CFG_BUDGET_EXCEEDED"@.len() == 25);
    assert("INVALID_LOCAL_CFG_TOPOLOGY"@.len() == 26);
    assert("NO_SOURCE_FUNCTION"@.len() == 18);
    assert("LOCAL_CFG_NORMALIZATION_FAILED"@.len() == 30);
    assert("DUPLICATE_LOCAL_CFG_OWNER"@.len() == 25);
    assert("INVALID_LOCAL_CFG"@.len() == 17);
    assert("UNPROVEN_LOCAL_CFG_OWNER"@.len() == 24);
}

/// A boundary validates exactly where it is an object with no keys but its own, says of itself
/// what every boundary says, has a code of its provider and the digest of its row, and names a
/// file, an owner and a graph as they have to be, or none.
pub proof fn boundaries_are_valid_where_they_are_fit(value: JsonModel)
    ensures
        boundary_validated(value) is Ok <==> is_fit_boundary(value),
{
    codes_differ();
    if let JsonModel::Obj(members) = value {
        assert(has_known_keys(value) <==> forall|i: int|
            0 <= i < members.len() ==> is_boundary_key(#[trigger] members[i].0)) by {
            if has_known_keys(value) {
                assert forall|i: int| 0 <= i < members.len() implies is_boundary_key(
                    #[trigger] members[i].0,
                ) by {
                    member_is_there(members, members[i].0);
                    assert(value.get(members[i].0) is Some);
                }
            }
            if forall|i: int| 0 <= i < members.len() ==> is_boundary_key(#[trigger] members[i].0) {
                assert forall|key: Seq<char>| (#[trigger] value.get(key)) is Some implies
                    is_boundary_key(key) by {
                    member_is_there(members, key);
                    let v = value.get(key)->0;
                    let i = choose|i: int|
                        0 <= i < members.len() && #[trigger] members[i] == (key, v);
                    assert(is_boundary_key(members[i].0));
                }
            }
        }
        assert(boundary_file_checked(value) is Ok && boundary_owner_checked(value) is Ok
            && boundary_name_checked(value) is Ok <==> has_fit_places(value));
        assert(provider_gives_code(value.str_at("provider"@), value.str_at("code"@))
            == has_fit_code(value));
    }
}

} // verus!
