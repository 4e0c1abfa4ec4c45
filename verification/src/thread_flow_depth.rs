//! What the depths of a flow slice mean: in a slice that was not cut off, every node is
//! led to from the root, and its depth is the length of a shortest way.

use vstd::prelude::*;

use crate::error::ErrorModel;
use crate::table::{
    entered, entered_keeps_keys, entered_keeps_records, entered_keeps_table,
    entered_keeps_what_is_there, has_key, is_table, key_stands_once, record_at, Keyed,
};
use crate::thread_callables::{
    CallableFactModel, CallableMemberBinding, PreparedCallableFactSetModel, UseFactModel,
};
use crate::thread_flow::{
    built_slice_is_sound, callable_step, completed, context_of, declarations_of, declares,
    edge_id_of, edge_of, edges_anchored, edges_connected, exact_target, facts_bounded, facts_read,
    flow_built, handoff_edge_id, handoff_node, handoff_step, is_declared_use, is_node_of,
    is_relevant_boundary, is_sound, is_use_by, node_for, node_of, nodes_anchored, order_of,
    outgoing_of, region_step, regions_built, request_checked, started, support_of,
    supports_anchored, symbol_keeps_sound, symbol_step, traversed, use_keeps_sound, use_step,
    uses_step, with_boundary, FlowContext, FlowControlRegionModel, FlowEdge, FlowEdgeModel,
    FlowNode, FlowNodeKind, FlowNodeModel, FlowOrderAuthority, FlowRequestModel, FlowSource,
    FlowStateModel, FlowStatus, FlowStepModel, FlowSupportRefModel, IndexedFactModel,
    PreparedFlowSliceModel,
};
use crate::thread_flow_cfg::PreparedLocalCfgModel;

verus! {

/// Whether an identity is that of an edge between two nodes that rests on a use.
pub open spec fn names_edge(
    id: Seq<char>,
    source: Seq<char>,
    target: Seq<char>,
    fact_id: Seq<char>,
) -> bool {
    id == edge_id_of(source, target, fact_id) || id == handoff_edge_id(source, target, fact_id)
}

/// Whether a use with an identity is among some facts.
pub open spec fn has_use(facts: Seq<IndexedFactModel>, fact_id: Seq<char>) -> bool {
    exists|i: int|
        0 <= i < facts.len() && (#[trigger] facts[i]).fact is Use && facts[i].fact->Use_0.fact_id
            == fact_id
}

/// Whether an edge, by its identity, leads from a node to one that is one deeper.
pub open spec fn leads(
    facts: Seq<IndexedFactModel>,
    u: FlowNodeModel,
    e: FlowEdgeModel,
    fact_id: Seq<char>,
    v: FlowNodeModel,
) -> bool {
    &&& u.depth + 1 == v.depth
    &&& has_use(facts, fact_id)
    &&& names_edge(e.edge_id, u.node_id, v.node_id, fact_id)
}

/// Whether an edge leads to a node from one that is one less deep.
pub open spec fn is_led_to(
    facts: Seq<IndexedFactModel>,
    nodes: Seq<FlowNodeModel>,
    edges: Seq<FlowEdgeModel>,
    v: FlowNodeModel,
) -> bool {
    exists|u: FlowNodeModel, e: FlowEdgeModel, fact_id: Seq<char>|
        nodes.contains(u) && edges.contains(e) && #[trigger] leads(facts, u, e, fact_id, v)
}

/// Whether an edge leads from one node to another by its ends.
pub open spec fn joins(e: FlowEdgeModel, u: FlowNodeModel, v: FlowNodeModel) -> bool {
    e.source_node_id == u.node_id && e.target_node_id == v.node_id
}

/// Whether nodes and edges lie in layers: every node but the root is led to from the layer
/// before its own, and no edge leads further than into the next layer.
pub open spec fn is_layered(
    facts: Seq<IndexedFactModel>,
    root: FlowNodeModel,
    nodes: Seq<FlowNodeModel>,
    edges: Seq<FlowEdgeModel>,
) -> bool {
    &&& forall|i: int|
        0 <= i < nodes.len() ==> (#[trigger] nodes[i] == root || is_led_to(
            facts,
            nodes,
            edges,
            nodes[i],
        ))
    &&& forall|k: int, i: int, j: int|
        0 <= k < edges.len() && 0 <= i < nodes.len() && 0 <= j < nodes.len() && #[trigger] joins(
            edges[k],
            nodes[i],
            nodes[j],
        ) ==> nodes[j].depth <= nodes[i].depth + 1
}

/// The identity of the node of a symbol of the member.
pub open spec fn symbol_node_id(cx: FlowContext, symbol: Seq<char>) -> Seq<char> {
    node_of(cx, declarations_of(cx.facts, cx.request.member_alias, symbol)[0], 0)->Ok_0.node_id
}

/// What holds while the callables at depth `c` are followed, first in, first out: the nodes
/// lie in layers, none deeper than the next one, and what is to be followed is at this
/// depth or, behind that, at the next.
#[verifier::opaque]
spec fn follows(
    cx: FlowContext,
    root: FlowNodeModel,
    nodes: Seq<FlowNodeModel>,
    edges: Seq<FlowEdgeModel>,
    visited: Seq<Seq<char>>,
    queue: Seq<FlowStepModel>,
    c: int,
) -> bool {
    let member = cx.request.member_alias;
    &&& is_layered(cx.facts, root, nodes, edges)
    &&& forall|i: int| 0 <= i < nodes.len() ==> (#[trigger] nodes[i]).depth <= c + 1
    &&& forall|i: int|
        0 <= i < nodes.len() && (#[trigger] nodes[i]).node_kind == FlowNodeKind::Callable
            && nodes[i].member_alias == member ==> has_key::<String>(
            visited,
            nodes[i].symbol_identity,
        )
    &&& forall|k: int, i: int|
        0 <= k < queue.len() && 0 <= i < nodes.len() && is_node_of(
            #[trigger] nodes[i],
            member,
            (#[trigger] queue[k]).symbol,
        ) ==> nodes[i].depth == queue[k].depth
    &&& forall|k: int|
        0 <= k < queue.len() ==> c <= (#[trigger] queue[k]).depth <= c + 1 && has_key::<String>(
            visited,
            queue[k].symbol,
        )
    &&& forall|j: int, k: int|
        0 <= j < k < queue.len() ==> (#[trigger] queue[j]).depth <= (#[trigger] queue[k]).depth
    &&& is_table::<String>(visited)
    &&& forall|k: int|
        0 <= k < visited.len() ==> has_key::<FlowNode>(
            nodes,
            symbol_node_id(cx, #[trigger] visited[k]),
        )
}

/// [`follows`] of a state, unless something was cut off.
spec fn in_layers(cx: FlowContext, root: FlowNodeModel, st: FlowStateModel, c: int) -> bool {
    st.truncated || follows(cx, root, st.nodes, st.edges, st.visited, st.queue, c)
}

/// Whether the callable that is being followed has its node, at its depth.
spec fn has_source(nodes: Seq<FlowNodeModel>, source: FlowSource) -> bool {
    exists|i: int|
        0 <= i < nodes.len() && (#[trigger] nodes[i]).node_id == source.node_id && nodes[i].depth
            == source.depth
}

/// The node of a declared symbol of the member.
pub proof fn node_of_symbol(cx: FlowContext, symbol: Seq<char>, depth: usize)
    requires
        declarations_of(cx.facts, cx.request.member_alias, symbol).len() > 0,
    ensures
        match node_of(
            cx,
            declarations_of(cx.facts, cx.request.member_alias, symbol)[0],
            depth,
        ) {
            Ok(node) => {
                &&& node.node_id == symbol_node_id(cx, symbol)
                &&& node.depth == depth
                &&& is_node_of(node, cx.request.member_alias, symbol)
            },
            Err(_) => true,
        },
{
    let member = cx.request.member_alias;
    cx.facts.lemma_filter_pred(|f: IndexedFactModel| declares(f, member, symbol), 0);
}

proof fn led_to_more(
    facts: Seq<IndexedFactModel>,
    nodes: Seq<FlowNodeModel>,
    edges: Seq<FlowEdgeModel>,
    more_nodes: Seq<FlowNodeModel>,
    more_edges: Seq<FlowEdgeModel>,
    v: FlowNodeModel,
)
    requires
        is_led_to(facts, nodes, edges, v),
        forall|u: FlowNodeModel| nodes.contains(u) ==> #[trigger] more_nodes.contains(u),
        forall|e: FlowEdgeModel| edges.contains(e) ==> #[trigger] more_edges.contains(e),
    ensures
        is_led_to(facts, more_nodes, more_edges, v),
{
    let (u, e, fact_id) = choose|u: FlowNodeModel, e: FlowEdgeModel, fact_id: Seq<char>|
        nodes.contains(u) && edges.contains(e) && #[trigger] leads(facts, u, e, fact_id, v);
    assert(more_nodes.contains(u) && more_edges.contains(e));
    assert(leads(facts, u, e, fact_id, v));
}

/// A node stays the one with its identity.
proof fn node_stays(nodes: Seq<FlowNodeModel>, x: FlowNodeModel, i: int, id: Seq<char>)
    requires
        is_table::<FlowNode>(nodes),
        0 <= i < entered::<FlowNode>(nodes, x).len(),
        entered::<FlowNode>(nodes, x)[i].node_id == id,
        has_key::<FlowNode>(nodes, id),
    ensures
        nodes.contains(entered::<FlowNode>(nodes, x)[i]),
{
    entered_keeps_table::<FlowNode>(nodes, x);
    let after = entered::<FlowNode>(nodes, x);
    let k = choose|k: int| 0 <= k < nodes.len() && FlowNode::key(#[trigger] nodes[k]) == id;
    assert(nodes.contains(nodes[k]));
    assert(after.contains(nodes[k]));
    let m = choose|m: int| 0 <= m < after.len() && after[m] == nodes[k];
    key_stands_once::<FlowNode>(after, i, m);
}

/// A node of the next layer, with an edge to it from the layer that is being followed, is
/// entered in its layer.
proof fn step_keeps_layers(
    facts: Seq<IndexedFactModel>,
    root: FlowNodeModel,
    nodes: Seq<FlowNodeModel>,
    edges: Seq<FlowEdgeModel>,
    u: FlowNodeModel,
    node: FlowNodeModel,
    edge: FlowEdgeModel,
    fact_id: Seq<char>,
)
    requires
        is_layered(facts, root, nodes, edges),
        is_table::<FlowNode>(nodes),
        is_table::<FlowEdge>(edges),
        edges_connected(nodes, edges),
        forall|i: int| 0 <= i < nodes.len() ==> (#[trigger] nodes[i]).depth <= u.depth + 1,
        nodes.contains(u),
        leads(facts, u, edge, fact_id, node),
        edge.source_node_id == u.node_id,
        edge.target_node_id == node.node_id,
    ensures
        is_layered(
            facts,
            root,
            entered::<FlowNode>(nodes, node),
            entered::<FlowEdge>(edges, edge),
        ),
{
    entered_keeps_table::<FlowNode>(nodes, node);
    entered_keeps_table::<FlowEdge>(edges, edge);
    let ns = entered::<FlowNode>(nodes, node);
    let es = entered::<FlowEdge>(edges, edge);
    assert(ns.contains(u));
    assert(is_led_to(facts, ns, es, node)) by {
        let k = choose|k: int|
            0 <= k < es.len() && FlowEdge::key(#[trigger] es[k]) == FlowEdge::key(edge);
        assert(es.contains(es[k]));
        assert(leads(facts, u, es[k], fact_id, node));
    }
    assert forall|i: int| 0 <= i < ns.len() implies (#[trigger] ns[i] == root || is_led_to(
        facts,
        ns,
        es,
        ns[i],
    )) by {
        if ns[i] != node {
            assert(nodes.contains(ns[i]));
            let k = choose|k: int| 0 <= k < nodes.len() && nodes[k] == ns[i];
            if nodes[k] != root {
                led_to_more(facts, nodes, edges, ns, es, nodes[k]);
            }
        }
    }
    assert forall|k: int, i: int, j: int|
        0 <= k < es.len() && 0 <= i < ns.len() && 0 <= j < ns.len() && #[trigger] joins(
            es[k],
            ns[i],
            ns[j],
        ) implies ns[j].depth <= ns[i].depth + 1 by {
        if es[k] == edge {
            let m = choose|m: int| 0 <= m < ns.len() && ns[m] == u;
            key_stands_once::<FlowNode>(ns, i, m);
            if ns[j] != node {
                assert(nodes.contains(ns[j]));
                let n = choose|n: int| 0 <= n < nodes.len() && nodes[n] == ns[j];
                assert(nodes[n].depth <= u.depth + 1);
            }
        } else {
            assert(edges.contains(es[k]));
            let m = choose|m: int| 0 <= m < edges.len() && edges[m] == es[k];
            assert(has_key::<FlowNode>(nodes, edges[m].source_node_id));
            node_stays(nodes, node, i, es[k].source_node_id);
            node_stays(nodes, node, j, es[k].target_node_id);
            let a = choose|a: int| 0 <= a < nodes.len() && nodes[a] == ns[i];
            let b = choose|b: int| 0 <= b < nodes.len() && nodes[b] == ns[j];
            assert(joins(edges[m], nodes[a], nodes[b]));
        }
    }
}

/// Entering an edge to a node that is there, or to a new one that is not to be followed, goes
/// on in layers.
proof fn edge_follows(
    cx: FlowContext,
    root: FlowNodeModel,
    st: FlowStateModel,
    source: FlowSource,
    node: FlowNodeModel,
    edge: FlowEdgeModel,
    fact_id: Seq<char>,
)
    requires
        follows(cx, root, st.nodes, st.edges, st.visited, st.queue, source.depth as int),
        is_sound(cx, st),
        has_source(st.nodes, source),
        has_use(cx.facts, fact_id),
        node.depth == source.depth + 1,
        names_edge(edge.edge_id, source.node_id, node.node_id, fact_id),
        edge.source_node_id == source.node_id,
        edge.target_node_id == node.node_id,
        node.node_kind == FlowNodeKind::Callable ==> has_key::<FlowNode>(st.nodes, node.node_id),
    ensures
        follows(
            cx,
            root,
            entered::<FlowNode>(st.nodes, node),
            entered::<FlowEdge>(st.edges, edge),
            st.visited,
            st.queue,
            source.depth as int,
        ),
        has_source(entered::<FlowNode>(st.nodes, node), source),
{
    reveal(follows);
    let nodes = st.nodes;
    let ns = entered::<FlowNode>(nodes, node);
    let i = choose|i: int|
        0 <= i < nodes.len() && (#[trigger] nodes[i]).node_id == source.node_id && nodes[i].depth
            == source.depth;
    let u = nodes[i];
    assert(nodes.contains(u));
    step_keeps_layers(cx.facts, root, nodes, st.edges, u, node, edge, fact_id);
    entered_keeps_table::<FlowNode>(nodes, node);
    assert(ns.contains(u));
    let m = choose|m: int| 0 <= m < ns.len() && ns[m] == u;
    assert(ns[m].node_id == source.node_id);
    if has_key::<FlowNode>(nodes, node.node_id) {
        assert(FlowNode::key(node) == node.node_id);
        entered_keeps_what_is_there::<FlowNode>(nodes, node);
    }
    assert forall|k: int| 0 <= k < st.visited.len() implies has_key::<FlowNode>(
        ns,
        symbol_node_id(cx, #[trigger] st.visited[k]),
    ) by {
        entered_keeps_keys::<FlowNode>(nodes, node, symbol_node_id(cx, st.visited[k]));
    }
}

/// Entering a callable of the member that is not visited yet, with an edge to it, and
/// queueing it goes on in layers.
proof fn new_callable_follows(
    cx: FlowContext,
    root: FlowNodeModel,
    st: FlowStateModel,
    source: FlowSource,
    node: FlowNodeModel,
    edge: FlowEdgeModel,
    fact_id: Seq<char>,
    symbol: Seq<char>,
)
    requires
        follows(cx, root, st.nodes, st.edges, st.visited, st.queue, source.depth as int),
        is_sound(cx, st),
        has_source(st.nodes, source),
        has_use(cx.facts, fact_id),
        node.depth == source.depth + 1,
        names_edge(edge.edge_id, source.node_id, node.node_id, fact_id),
        edge.source_node_id == source.node_id,
        edge.target_node_id == node.node_id,
        is_node_of(node, cx.request.member_alias, symbol),
        node.node_id == symbol_node_id(cx, symbol),
        !has_key::<String>(st.visited, symbol),
    ensures
        follows(
            cx,
            root,
            entered::<FlowNode>(st.nodes, node),
            entered::<FlowEdge>(st.edges, edge),
            entered::<String>(st.visited, symbol),
            st.queue.push(FlowStepModel { symbol, depth: node.depth }),
            source.depth as int,
        ),
        has_source(entered::<FlowNode>(st.nodes, node), source),
{
    reveal(follows);
    let nodes = st.nodes;
    let member = cx.request.member_alias;
    let ns = entered::<FlowNode>(nodes, node);
    let visited = entered::<String>(st.visited, symbol);
    let queue = st.queue.push(FlowStepModel { symbol, depth: node.depth });
    let i = choose|i: int|
        0 <= i < nodes.len() && (#[trigger] nodes[i]).node_id == source.node_id && nodes[i].depth
            == source.depth;
    let u = nodes[i];
    assert(nodes.contains(u));
    step_keeps_layers(cx.facts, root, nodes, st.edges, u, node, edge, fact_id);
    entered_keeps_table::<FlowNode>(nodes, node);
    entered_keeps_table::<String>(st.visited, symbol);
    assert(ns.contains(u));
    let m = choose|m: int| 0 <= m < ns.len() && ns[m] == u;
    assert(ns[m].node_id == source.node_id);
    assert(String::key(symbol) == symbol);
    assert(FlowNode::key(node) == node.node_id);
    assert forall|i: int| 0 <= i < ns.len() && ns[i] != node implies nodes.contains(
        #[trigger] ns[i],
    ) by {
    }
    assert forall|i: int|
        0 <= i < ns.len() && (#[trigger] ns[i]).node_kind == FlowNodeKind::Callable
            && ns[i].member_alias == member implies has_key::<String>(
        visited,
        ns[i].symbol_identity,
    ) by {
        if ns[i] != node {
            let k = choose|k: int| 0 <= k < nodes.len() && nodes[k] == ns[i];
            assert(has_key::<String>(st.visited, nodes[k].symbol_identity));
            entered_keeps_keys::<String>(st.visited, symbol, nodes[k].symbol_identity);
        }
    }
    assert forall|k: int, i: int|
        0 <= k < queue.len() && 0 <= i < ns.len() && is_node_of(
            #[trigger] ns[i],
            member,
            (#[trigger] queue[k]).symbol,
        ) implies ns[i].depth == queue[k].depth by {
        if ns[i] != node {
            let n = choose|n: int| 0 <= n < nodes.len() && nodes[n] == ns[i];
            assert(has_key::<String>(st.visited, nodes[n].symbol_identity));
            assert(k < st.queue.len());
            assert(queue[k] == st.queue[k]);
        } else if k < st.queue.len() {
            assert(queue[k] == st.queue[k]);
            assert(has_key::<String>(st.visited, st.queue[k].symbol));
        }
    }
    assert forall|k: int| 0 <= k < queue.len() implies source.depth <= (#[trigger] queue[k]).depth
        <= source.depth + 1 && has_key::<String>(visited, queue[k].symbol) by {
        if k < st.queue.len() {
            assert(queue[k] == st.queue[k]);
            entered_keeps_keys::<String>(st.visited, symbol, queue[k].symbol);
        }
    }
    assert forall|j: int, k: int| 0 <= j < k < queue.len() implies (#[trigger] queue[j]).depth <= (
    #[trigger] queue[k]).depth by {
        assert(queue[j] == st.queue[j]);
        if k < st.queue.len() {
            assert(queue[k] == st.queue[k]);
        }
    }
    assert forall|k: int| 0 <= k < visited.len() implies has_key::<FlowNode>(
        ns,
        symbol_node_id(cx, #[trigger] visited[k]),
    ) by {
        if visited[k] != symbol {
            assert(st.visited.contains(visited[k]));
            let j = choose|j: int| 0 <= j < st.visited.len() && st.visited[j] == visited[k];
            assert(has_key::<FlowNode>(nodes, symbol_node_id(cx, st.visited[j])));
            entered_keeps_keys::<FlowNode>(nodes, node, symbol_node_id(cx, visited[k]));
        }
    }
}

proof fn handoff_keeps_layers(
    cx: FlowContext,
    root: FlowNodeModel,
    st: FlowStateModel,
    source: FlowSource,
    f: IndexedFactModel,
    row: UseFactModel,
)
    requires
        is_sound(cx, st),
        in_layers(cx, root, st, source.depth as int),
        st.truncated || has_source(st.nodes, source),
        source.depth < usize::MAX,
        has_use(cx.facts, row.fact_id),
    ensures
        match handoff_step(cx, st, source, f, row) {
            Ok(after) => in_layers(cx, root, after, source.depth as int) && (after.truncated
                || has_source(after.nodes, source)),
            Err(_) => true,
        },
{
    if let Some(target) = record_at::<CallableMemberBinding>(cx.members, cx.pair.provider_member) {
        if let Some(source_member) = record_at::<CallableMemberBinding>(
            cx.members,
            cx.request.member_alias,
        ) {
            let node = handoff_node(target, row.target_callable_id, (source.depth + 1) as usize);
            let edge = edge_of(
                source,
                source_member,
                node.node_id,
                target,
                f,
                row,
                handoff_edge_id(source.node_id, node.node_id, row.fact_id),
                (FlowOrderAuthority::Unknown, None, Seq::empty()),
            );
            if !st.truncated {
                edge_follows(cx, root, st, source, node, edge, row.fact_id);
            }
        }
    }
}

proof fn callable_keeps_layers(
    cx: FlowContext,
    root: FlowNodeModel,
    st: FlowStateModel,
    source: FlowSource,
    f: IndexedFactModel,
    row: UseFactModel,
    symbol: Seq<char>,
)
    requires
        is_sound(cx, st),
        in_layers(cx, root, st, source.depth as int),
        st.truncated || has_source(st.nodes, source),
        source.depth < usize::MAX,
        has_use(cx.facts, row.fact_id),
        declarations_of(cx.facts, cx.request.member_alias, symbol).len() > 0,
    ensures
        match callable_step(
            cx,
            st,
            source,
            f,
            row,
            symbol,
            declarations_of(cx.facts, cx.request.member_alias, symbol)[0],
        ) {
            Ok(after) => in_layers(cx, root, after, source.depth as int) && (after.truncated
                || has_source(after.nodes, source)),
            Err(_) => true,
        },
{
    let target = declarations_of(cx.facts, cx.request.member_alias, symbol)[0];
    let depth = (source.depth + 1) as usize;
    node_of_symbol(cx, symbol, depth);
    if let Ok(node) = node_of(cx, target, depth) {
        if let Some(member) = record_at::<CallableMemberBinding>(
            cx.members,
            cx.request.member_alias,
        ) {
            let edge = edge_of(
                source,
                member,
                node.node_id,
                member,
                f,
                row,
                edge_id_of(source.node_id, node.node_id, row.fact_id),
                order_of(cx, source, row),
            );
            if !st.truncated {
                if has_key::<String>(st.visited, symbol) {
                    assert(has_key::<FlowNode>(st.nodes, node.node_id)) by {
                        reveal(follows);
                        let k = choose|k: int|
                            0 <= k < st.visited.len() && String::key(#[trigger] st.visited[k])
                                == symbol;
                        assert(has_key::<FlowNode>(st.nodes, symbol_node_id(cx, st.visited[k])));
                    }
                    edge_follows(cx, root, st, source, node, edge, row.fact_id);
                } else {
                    new_callable_follows(cx, root, st, source, node, edge, row.fact_id, symbol);
                }
            }
        }
    }
}

proof fn use_keeps_layers(
    cx: FlowContext,
    root: FlowNodeModel,
    st: FlowStateModel,
    source: FlowSource,
    f: IndexedFactModel,
)
    requires
        is_sound(cx, st),
        in_layers(cx, root, st, source.depth as int),
        st.truncated || has_source(st.nodes, source),
        source.depth < usize::MAX,
        cx.facts.contains(f),
    ensures
        match use_step(cx, st, source, f) {
            Ok(after) => in_layers(cx, root, after, source.depth as int) && (after.truncated
                || has_source(after.nodes, source)),
            Err(_) => true,
        },
{
    reveal(use_step);
    if let CallableFactModel::Use(row) = f.fact {
        assert(has_use(cx.facts, row.fact_id)) by {
            let i = choose|i: int| 0 <= i < cx.facts.len() && cx.facts[i] == f;
            assert(cx.facts[i].fact->Use_0.fact_id == row.fact_id);
        }
        handoff_keeps_layers(cx, root, st, source, f, row);
        if let Some(symbol) = exact_target(row) {
            if declarations_of(cx.facts, cx.request.member_alias, symbol).len() > 0 {
                callable_keeps_layers(cx, root, st, source, f, row, symbol);
            }
        }
    }
}

proof fn uses_keep_layers(
    cx: FlowContext,
    root: FlowNodeModel,
    st: FlowStateModel,
    source: FlowSource,
    uses: Seq<IndexedFactModel>,
    i: int,
)
    requires
        is_sound(cx, st),
        has_key::<FlowNode>(st.nodes, source.node_id),
        in_layers(cx, root, st, source.depth as int),
        st.truncated || has_source(st.nodes, source),
        uses.len() > 0 ==> source.depth < usize::MAX,
        forall|k: int| 0 <= k < uses.len() ==> cx.facts.contains(#[trigger] uses[k]),
        0 <= i,
    ensures
        match uses_step(cx, st, source, uses, i) {
            Ok(after) => in_layers(cx, root, after, source.depth as int),
            Err(_) => true,
        },
    decreases uses.len() - i,
{
    if i < uses.len() {
        use_keeps_sound(cx, st, source, uses[i]);
        use_keeps_layers(cx, root, st, source, uses[i]);
        if let Ok(st2) = use_step(cx, st, source, uses[i]) {
            uses_keep_layers(cx, root, st2, source, uses, i + 1);
        }
    }
}

proof fn found_node(nodes: Seq<FlowNodeModel>, member: Seq<char>, symbol: Seq<char>)
    ensures
        match node_for(nodes, member, symbol) {
            Some(id) => exists|i: int|
                0 <= i < nodes.len() && is_node_of(#[trigger] nodes[i], member, symbol)
                    && nodes[i].node_id == id,
            None => true,
        },
    decreases nodes.len(),
{
    if nodes.len() > 0 && !is_node_of(nodes[0], member, symbol) {
        let rest = nodes.drop_first();
        found_node(rest, member, symbol);
        if let Some(id) = node_for(rest, member, symbol) {
            let k = choose|k: int|
                0 <= k < rest.len() && is_node_of(#[trigger] rest[k], member, symbol)
                    && rest[k].node_id == id;
            assert(nodes[k + 1] == rest[k]);
        }
    }
}

proof fn outgoing_are_facts(facts: Seq<IndexedFactModel>, member: Seq<char>, callable_id: Seq<char>)
    ensures
        forall|k: int|
            0 <= k < outgoing_of(facts, member, callable_id).len() ==> facts.contains(
                #[trigger] outgoing_of(facts, member, callable_id)[k],
            ),
{
    let declared = |f: IndexedFactModel| is_use_by(f, member, callable_id) && is_declared_use(f);
    let other = |f: IndexedFactModel| is_use_by(f, member, callable_id) && !is_declared_use(f);
    let all = outgoing_of(facts, member, callable_id);
    assert(all == facts.filter(declared) + facts.filter(other));
    assert forall|k: int| 0 <= k < all.len() implies facts.contains(#[trigger] all[k]) by {
        if k < facts.filter(declared).len() {
            assert(facts.filter(declared)[k] == all[k]);
            facts.lemma_filter_contains_rev(declared, all[k]);
        } else {
            assert(facts.filter(other)[k - facts.filter(declared).len()] == all[k]);
            facts.lemma_filter_contains_rev(other, all[k]);
        }
    }
}

proof fn symbol_keeps_layers(
    cx: FlowContext,
    root: FlowNodeModel,
    st: FlowStateModel,
    symbol: Seq<char>,
    depth: usize,
)
    requires
        is_sound(cx, st),
        in_layers(cx, root, st, depth as int),
        st.truncated || forall|i: int|
            0 <= i < st.nodes.len() && is_node_of(
                #[trigger] st.nodes[i],
                cx.request.member_alias,
                symbol,
            ) ==> st.nodes[i].depth == depth,
    ensures
        match symbol_step(cx, st, symbol, depth) {
            Ok(after) => in_layers(cx, root, after, depth as int),
            Err(_) => true,
        },
{
    let member = cx.request.member_alias;
    found_node(st.nodes, member, symbol);
    if let Some(node_id) = node_for(st.nodes, member, symbol) {
        let source = FlowSource { symbol, depth, node_id };
        let i = choose|i: int|
            0 <= i < st.nodes.len() && is_node_of(#[trigger] st.nodes[i], member, symbol)
                && st.nodes[i].node_id == node_id;
        assert(FlowNode::key(st.nodes[i]) == node_id);
        let declared = declarations_of(cx.facts, member, symbol);
        if let Some(callable_id) = declared[0].fact->Declaration_0.compiler_callable_id {
            outgoing_are_facts(cx.facts, member, callable_id);
            let outgoing = outgoing_of(cx.facts, member, callable_id);
            if depth < cx.request.budgets.max_depth || outgoing.len() == 0 {
                uses_keep_layers(cx, root, st, source, outgoing, 0);
            }
        }
    }
}

proof fn traversal_keeps_layers(
    cx: FlowContext,
    root: FlowNodeModel,
    st: FlowStateModel,
    n: nat,
    c: int,
)
    requires
        is_sound(cx, st),
        in_layers(cx, root, st, c),
    ensures
        match traversed(cx, st, n) {
            Ok(after) => after.truncated || is_layered(cx.facts, root, after.nodes, after.edges),
            Err(_) => true,
        },
    decreases n,
{
    if n > 0 && st.queue.len() > 0 {
        let next = st.queue[0];
        let rest = FlowStateModel { queue: st.queue.drop_first(), ..st };
        if !st.truncated {
            reveal(follows);
            assert forall|k: int| 0 <= k < rest.queue.len() implies next.depth <= (
            #[trigger] rest.queue[k]).depth <= next.depth + 1 && has_key::<String>(
                st.visited,
                rest.queue[k].symbol,
            ) by {
                assert(rest.queue[k] == st.queue[k + 1]);
                assert(st.queue[0].depth <= st.queue[k + 1].depth);
            }
            assert forall|k: int, i: int|
                0 <= k < rest.queue.len() && 0 <= i < st.nodes.len() && is_node_of(
                    #[trigger] st.nodes[i],
                    cx.request.member_alias,
                    (#[trigger] rest.queue[k]).symbol,
                ) implies st.nodes[i].depth == rest.queue[k].depth by {
                assert(rest.queue[k] == st.queue[k + 1]);
            }
            assert forall|j: int, k: int| 0 <= j < k < rest.queue.len() implies (
            #[trigger] rest.queue[j]).depth <= (#[trigger] rest.queue[k]).depth by {
                assert(rest.queue[j] == st.queue[j + 1] && rest.queue[k] == st.queue[k + 1]);
            }
            assert(follows(
                cx,
                root,
                rest.nodes,
                rest.edges,
                rest.visited,
                rest.queue,
                next.depth as int,
            ));
        }
        symbol_keeps_sound(cx, rest, next.symbol, next.depth);
        symbol_keeps_layers(cx, root, rest, next.symbol, next.depth);
        if let Ok(st2) = symbol_step(cx, rest, next.symbol, next.depth) {
            traversal_keeps_layers(cx, root, st2, (n - 1) as nat, next.depth as int);
        }
    } else if !st.truncated {
        reveal(follows);
    }
}

/// Whether an outcome, where it is a state, has the nodes, edges and visited symbols of
/// another, and is cut off where that is.
pub open spec fn keeps_flow(st: FlowStateModel, r: Result<FlowStateModel, ErrorModel>) -> bool {
    match r {
        Ok(after) => after.nodes == st.nodes && after.edges == st.edges && after.visited
            == st.visited && after.truncated == st.truncated,
        Err(_) => true,
    }
}

proof fn supports_keep_flow(
    cx: FlowContext,
    st: FlowStateModel,
    subject: Seq<char>,
    supports: Seq<FlowSupportRefModel>,
    i: int,
)
    ensures
        keeps_flow(st, supports_anchored(cx, st, subject, supports, i)),
    decreases supports.len() - i,
{
    if 0 <= i < supports.len() {
        if supports[i].source is Some {
            supports_keep_flow(cx, st, subject, supports, i + 1);
        } else if let Ok(st2) = with_boundary(
            cx,
            st,
            "MISSING_SOURCE_ANCHOR"@,
            subject,
            seq!["VERIFY_EXACT_SOURCE_ANCHOR"@],
            seq![supports[i]],
        ) {
            supports_keep_flow(cx, st2, subject, supports, i + 1);
        }
    }
}

proof fn nodes_keep_flow(cx: FlowContext, st: FlowStateModel, nodes: Seq<FlowNodeModel>, i: int)
    ensures
        keeps_flow(st, nodes_anchored(cx, st, nodes, i)),
    decreases nodes.len() - i,
{
    if 0 <= i < nodes.len() {
        let (subject, supports) = (nodes[i].symbol_identity, nodes[i].support_refs);
        supports_keep_flow(cx, st, subject, supports, 0);
        if let Ok(st2) = supports_anchored(cx, st, subject, supports, 0) {
            nodes_keep_flow(cx, st2, nodes, i + 1);
        }
    }
}

proof fn edges_keep_flow(cx: FlowContext, st: FlowStateModel, edges: Seq<FlowEdgeModel>, i: int)
    ensures
        keeps_flow(st, edges_anchored(cx, st, edges, i)),
    decreases edges.len() - i,
{
    if 0 <= i < edges.len() {
        let (subject, supports) = (edges[i].source_node_id, edges[i].support_refs);
        supports_keep_flow(cx, st, subject, supports, 0);
        if let Ok(st2) = supports_anchored(cx, st, subject, supports, 0) {
            edges_keep_flow(cx, st2, edges, i + 1);
        }
    }
}

proof fn facts_keep_flow(cx: FlowContext, st: FlowStateModel, i: int)
    ensures
        keeps_flow(st, facts_bounded(cx, st, i)),
    decreases cx.facts.len() - i,
{
    if 0 <= i < cx.facts.len() {
        let f = cx.facts[i];
        if !is_relevant_boundary(cx, st, f) {
            facts_keep_flow(cx, st, i + 1);
        } else {
            let row = f.fact->Boundary_0;
            if let Ok(st2) = with_boundary(
                cx,
                st,
                row.code,
                row.subject.unwrap(),
                row.required_checks,
                seq![support_of(f)],
            ) {
                facts_keep_flow(cx, st2, i + 1);
            }
        }
    }
}

/// The regions leave the flow as it is.
pub proof fn regions_keep_flow(
    cx: FlowContext,
    catalog: Map<(Seq<char>, Seq<char>), PreparedLocalCfgModel>,
    st: FlowStateModel,
    regions: Seq<FlowControlRegionModel>,
    symbols: Seq<Seq<char>>,
    i: int,
)
    ensures
        match regions_built(cx, catalog, st, regions, symbols, i) {
            Ok(done) => keeps_flow(st, Ok(done.0)),
            Err(_) => true,
        },
    decreases symbols.len() - i,
{
    if 0 <= i < symbols.len() {
        if let Ok((st2, regions2)) = region_step(cx, catalog, st, regions, symbols[i]) {
            regions_keep_flow(cx, catalog, st2, regions2, symbols, i + 1);
        }
    }
}

/// What is bounded after the traversal leaves the flow as it is.
pub proof fn bounding_keeps_flow(
    cx: FlowContext,
    st1: FlowStateModel,
    st2: FlowStateModel,
    st3: FlowStateModel,
    st4: FlowStateModel,
)
    requires
        nodes_anchored(cx, st1, st1.nodes, 0) == Ok::<FlowStateModel, ErrorModel>(st2),
        edges_anchored(cx, st2, st2.edges, 0) == Ok::<FlowStateModel, ErrorModel>(st3),
        facts_bounded(cx, st3, 0) == Ok::<FlowStateModel, ErrorModel>(st4),
    ensures
        keeps_flow(st1, Ok(st4)),
{
    nodes_keep_flow(cx, st1, st1.nodes, 0);
    edges_keep_flow(cx, st2, st2.edges, 0);
    facts_keep_flow(cx, st3, 0);
}

/// What comes after the traversal leaves the flow as it is.
pub proof fn completion_keeps_flow(cx: FlowContext, st: FlowStateModel)
    requires
        completed(cx, st) is Ok,
    ensures
        keeps_flow(
            traversed(cx, st, cx.facts.len())->Ok_0,
            Ok(completed(cx, st)->Ok_0.0),
        ),
{
    let st1 = traversed(cx, st, cx.facts.len())->Ok_0;
    let st2 = nodes_anchored(cx, st1, st1.nodes, 0)->Ok_0;
    let st3 = edges_anchored(cx, st2, st2.edges, 0)->Ok_0;
    let st4 = facts_bounded(cx, st3, 0)->Ok_0;
    bounding_keeps_flow(cx, st1, st2, st3, st4);
    if let Some(catalog) = cx.cfg {
        regions_keep_flow(cx, catalog, st4, Seq::empty(), st4.visited, 0);
    }
}

/// The slice starts in layers.
proof fn start_is_in_layers(cx: FlowContext, st: FlowStateModel)
    requires
        started(cx) == Ok::<FlowStateModel, ErrorModel>(st),
    ensures
        follows(cx, st.nodes[0], st.nodes, st.edges, st.visited, st.queue, 0),
{
    reveal(follows);
    let root = cx.request.root;
    node_of_symbol(cx, root, 0);
    assert(String::key(st.visited[0]) == root);
    assert(has_key::<String>(st.visited, root));
    assert(FlowNode::key(st.nodes[0]) == symbol_node_id(cx, root));
    assert(has_key::<FlowNode>(st.nodes, symbol_node_id(cx, root)));
}

/// The nodes of a slice that was not cut off lie in layers around its root, which alone has
/// depth zero: every other node is led to, by the identity of an edge, from a node that is
/// one less deep, and no edge leads to a node that is more than one deeper.
pub proof fn complete_slices_are_layered(
    request: FlowRequestModel,
    set: PreparedCallableFactSetModel,
    cfg: Option<Map<(Seq<char>, Seq<char>), PreparedLocalCfgModel>>,
    p: PreparedFlowSliceModel,
) -> (root: FlowNodeModel)
    requires
        flow_built(request, set, cfg) == Ok::<PreparedFlowSliceModel, ErrorModel>(p),
        p.slice.status == FlowStatus::Complete,
    ensures
        p.slice.nodes.contains(root),
        root.node_id == p.slice.root_node_id,
        root.depth == 0,
        is_layered(facts_read(set)->Ok_0, root, p.slice.nodes, p.slice.edges),
{
    let pair = request_checked(request, set)->Ok_0;
    let facts = facts_read(set)->Ok_0;
    let cx = context_of(request, set, pair, facts, cfg);
    let st = started(cx)->Ok_0;
    let root = st.nodes[0];
    node_of_symbol(cx, request.root, 0);
    start_is_in_layers(cx, st);
    assert(is_sound(cx, st));
    traversal_keeps_layers(cx, root, st, cx.facts.len(), 0);
    completion_keeps_flow(cx, st);
    assert(st.visited[0] == request.root);
    traversal_keeps_start(cx, st, cx.facts.len(), root, request.root);
    root
}

proof fn use_keeps_start(
    cx: FlowContext,
    st: FlowStateModel,
    source: FlowSource,
    f: IndexedFactModel,
    u: FlowNodeModel,
    symbol: Seq<char>,
)
    requires
        st.nodes.contains(u),
        st.visited.contains(symbol),
    ensures
        match use_step(cx, st, source, f) {
            Ok(after) => after.nodes.contains(u) && after.visited.contains(symbol),
            Err(_) => true,
        },
{
    reveal(use_step);
    assert forall|x: FlowNodeModel| #[trigger] entered::<FlowNode>(st.nodes, x).contains(u) by {
        entered_keeps_records::<FlowNode>(st.nodes, x);
    }
    assert forall|x: Seq<char>| #[trigger] entered::<String>(st.visited, x).contains(symbol) by {
        entered_keeps_records::<String>(st.visited, x);
    }
}

proof fn uses_keep_start(
    cx: FlowContext,
    st: FlowStateModel,
    source: FlowSource,
    uses: Seq<IndexedFactModel>,
    i: int,
    u: FlowNodeModel,
    symbol: Seq<char>,
)
    requires
        st.nodes.contains(u),
        st.visited.contains(symbol),
    ensures
        match uses_step(cx, st, source, uses, i) {
            Ok(after) => after.nodes.contains(u) && after.visited.contains(symbol),
            Err(_) => true,
        },
    decreases uses.len() - i,
{
    if 0 <= i < uses.len() {
        use_keeps_start(cx, st, source, uses[i], u, symbol);
        if let Ok(st2) = use_step(cx, st, source, uses[i]) {
            uses_keep_start(cx, st2, source, uses, i + 1, u, symbol);
        }
    }
}

/// The traversal leaves in place every node and every visited symbol.
pub proof fn traversal_keeps_start(
    cx: FlowContext,
    st: FlowStateModel,
    n: nat,
    u: FlowNodeModel,
    symbol: Seq<char>,
)
    requires
        st.nodes.contains(u),
        st.visited.contains(symbol),
    ensures
        match traversed(cx, st, n) {
            Ok(after) => after.nodes.contains(u) && after.visited.contains(symbol),
            Err(_) => true,
        },
    decreases n,
{
    if n > 0 && st.queue.len() > 0 {
        let next = st.queue[0];
        let rest = FlowStateModel { queue: st.queue.drop_first(), ..st };
        let member = cx.request.member_alias;
        if let Some(node_id) = node_for(rest.nodes, member, next.symbol) {
            let source = FlowSource { symbol: next.symbol, depth: next.depth, node_id };
            let declared = declarations_of(cx.facts, member, next.symbol);
            if let Some(callable_id) = declared[0].fact->Declaration_0.compiler_callable_id {
                let outgoing = outgoing_of(cx.facts, member, callable_id);
                uses_keep_start(cx, rest, source, outgoing, 0, u, symbol);
            }
        }
        if let Ok(st2) = symbol_step(cx, rest, next.symbol, next.depth) {
            traversal_keeps_start(cx, st2, (n - 1) as nat, u, symbol);
        }
    }
}

/// Whether an edge leads from one identity to another.
pub open spec fn is_joined(edges: Seq<FlowEdgeModel>, source: Seq<char>, target: Seq<char>) -> bool {
    exists|k: int|
        0 <= k < edges.len() && (#[trigger] edges[k]).source_node_id == source
            && edges[k].target_node_id == target
}

/// Whether a list of identities is a way along edges.
pub open spec fn is_way(edges: Seq<FlowEdgeModel>, way: Seq<Seq<char>>) -> bool {
    way.len() > 0 && forall|i: int, j: int|
        0 <= i && j == i + 1 && j < way.len() ==> is_joined(
            edges,
            #[trigger] way[i],
            #[trigger] way[j],
        )
}

proof fn no_way_through_layers_is_shorter(
    facts: Seq<IndexedFactModel>,
    root: FlowNodeModel,
    nodes: Seq<FlowNodeModel>,
    edges: Seq<FlowEdgeModel>,
    way: Seq<Seq<char>>,
    v: FlowNodeModel,
)
    requires
        is_layered(facts, root, nodes, edges),
        is_table::<FlowNode>(nodes),
        edges_connected(nodes, edges),
        nodes.contains(root),
        root.depth == 0,
        is_way(edges, way),
        way.first() == root.node_id,
        nodes.contains(v),
        way.last() == v.node_id,
    ensures
        v.depth <= way.len() - 1,
    decreases way.len(),
{
    let j = choose|j: int| 0 <= j < nodes.len() && nodes[j] == v;
    if way.len() == 1 {
        let r = choose|r: int| 0 <= r < nodes.len() && nodes[r] == root;
        key_stands_once::<FlowNode>(nodes, j, r);
    } else {
        let before = way.drop_last();
        let (x, y) = (way.len() - 2, way.len() - 1);
        assert(is_joined(edges, way[x], way[y]));
        let k = choose|k: int|
            0 <= k < edges.len() && (#[trigger] edges[k]).source_node_id == way[x]
                && edges[k].target_node_id == way[y];
        assert(has_key::<FlowNode>(nodes, edges[k].source_node_id));
        let i = choose|i: int|
            0 <= i < nodes.len() && FlowNode::key(#[trigger] nodes[i]) == edges[k].source_node_id;
        assert(nodes.contains(nodes[i]));
        assert forall|a: int, b: int| 0 <= a && b == a + 1 && b < before.len() implies is_joined(
            edges,
            #[trigger] before[a],
            #[trigger] before[b],
        ) by {
            assert(before[a] == way[a] && before[b] == way[b]);
        }
        no_way_through_layers_is_shorter(facts, root, nodes, edges, before, nodes[i]);
        assert(joins(edges[k], nodes[i], nodes[j]));
    }
}

/// No way from the root to a node of a slice that was not cut off is shorter than the depth
/// of the node.
pub proof fn no_way_is_shorter(
    request: FlowRequestModel,
    set: PreparedCallableFactSetModel,
    cfg: Option<Map<(Seq<char>, Seq<char>), PreparedLocalCfgModel>>,
    p: PreparedFlowSliceModel,
    way: Seq<Seq<char>>,
    v: FlowNodeModel,
)
    requires
        flow_built(request, set, cfg) == Ok::<PreparedFlowSliceModel, ErrorModel>(p),
        p.slice.status == FlowStatus::Complete,
        is_way(p.slice.edges, way),
        way.first() == p.slice.root_node_id,
        p.slice.nodes.contains(v),
        way.last() == v.node_id,
    ensures
        v.depth <= way.len() - 1,
{
    let root = complete_slices_are_layered(request, set, cfg, p);
    built_slice_is_sound(request, set, cfg, p);
    let facts = facts_read(set)->Ok_0;
    no_way_through_layers_is_shorter(facts, root, p.slice.nodes, p.slice.edges, way, v);
}

/// Whether identities tell the edges between some nodes apart: an edge with the identity of
/// one between two nodes is between them.
pub open spec fn edges_are_told_apart(
    facts: Seq<IndexedFactModel>,
    nodes: Seq<FlowNodeModel>,
    edges: Seq<FlowEdgeModel>,
) -> bool {
    forall|u: FlowNodeModel, e: FlowEdgeModel, fact_id: Seq<char>, v: FlowNodeModel|
        nodes.contains(u) && nodes.contains(v) && edges.contains(e) && #[trigger] leads(
            facts,
            u,
            e,
            fact_id,
            v,
        ) ==> joins(e, u, v)
}

proof fn layered_nodes_are_reached(
    facts: Seq<IndexedFactModel>,
    root: FlowNodeModel,
    nodes: Seq<FlowNodeModel>,
    edges: Seq<FlowEdgeModel>,
    v: FlowNodeModel,
) -> (way: Seq<Seq<char>>)
    requires
        is_layered(facts, root, nodes, edges),
        root.depth == 0,
        edges_are_told_apart(facts, nodes, edges),
        nodes.contains(v),
    ensures
        is_way(edges, way),
        way.first() == root.node_id,
        way.last() == v.node_id,
        way.len() == v.depth + 1,
    decreases v.depth,
{
    if v == root {
        seq![root.node_id]
    } else {
        let i = choose|i: int| 0 <= i < nodes.len() && nodes[i] == v;
        assert(is_led_to(facts, nodes, edges, nodes[i]));
        let (u, e, fact_id) = choose|u: FlowNodeModel, e: FlowEdgeModel, fact_id: Seq<char>|
            nodes.contains(u) && edges.contains(e) && #[trigger] leads(facts, u, e, fact_id, v);
        let before = layered_nodes_are_reached(facts, root, nodes, edges, u);
        let way = before.push(v.node_id);
        let k = choose|k: int| 0 <= k < edges.len() && edges[k] == e;
        assert(is_joined(edges, u.node_id, v.node_id)) by {
            assert(joins(e, u, v));
            assert(edges[k].source_node_id == u.node_id);
        }
        assert forall|a: int, b: int| 0 <= a && b == a + 1 && b < way.len() implies is_joined(
            edges,
            #[trigger] way[a],
            #[trigger] way[b],
        ) by {
            assert(way[a] == before[a]);
            if b < before.len() {
                assert(way[b] == before[b]);
            } else {
                assert(before[a] == before.last());
            }
        }
        assert(way.first() == before.first());
        way
    }
}

/// Every node of a slice that was not cut off is reached from the root by a way that is as
/// long as the node is deep, where identities tell the edges apart.
pub proof fn every_node_is_reached(
    request: FlowRequestModel,
    set: PreparedCallableFactSetModel,
    cfg: Option<Map<(Seq<char>, Seq<char>), PreparedLocalCfgModel>>,
    p: PreparedFlowSliceModel,
    v: FlowNodeModel,
) -> (way: Seq<Seq<char>>)
    requires
        flow_built(request, set, cfg) == Ok::<PreparedFlowSliceModel, ErrorModel>(p),
        p.slice.status == FlowStatus::Complete,
        p.slice.nodes.contains(v),
        edges_are_told_apart(facts_read(set)->Ok_0, p.slice.nodes, p.slice.edges),
    ensures
        is_way(p.slice.edges, way),
        way.first() == p.slice.root_node_id,
        way.last() == v.node_id,
        way.len() == v.depth + 1,
{
    let root = complete_slices_are_layered(request, set, cfg, p);
    layered_nodes_are_reached(facts_read(set)->Ok_0, root, p.slice.nodes, p.slice.edges, v)
}

} // verus!
