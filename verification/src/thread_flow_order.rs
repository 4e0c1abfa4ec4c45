//! What the control-flow graphs of a catalog change of a flow slice: the order of its
//! edges, and which orders are still to be verified. The nodes, the edges and how far the
//! slice goes stay what they are without graphs.

use vstd::prelude::*;

use crate::error::ErrorModel;
use crate::table::{
    entered, entered_keeps_records, entered_keeps_table, entered_keeps_what_is_there, first_table,
    has_key, is_table, record_at, sorted, sorted_is_sorted, Keyed,
};
use crate::thread_callables::{
    CallableFactModel, CallableMemberBinding, PreparedCallableFactSetModel, UseFactModel,
};
use crate::thread_flow::{
    boundary_id, callable_step, completed, context_of, cut, declarations_of, edge_id_of, edge_of,
    edges_anchored, exact_target, facts_bounded, facts_read, flow_built, handoff_edge_id,
    handoff_node, handoff_step, is_node_of, is_relevant_boundary, is_sole_declared_pair, node_for,
    node_of, nodes_anchored, order_of, outgoing_of, points_outside_pair, region_step, regions_built,
    request_checked, started, stays_inside, support_of, supports_anchored, symbol_step,
    target_subject, traversed, use_step, uses_step, with_boundary, FlowBoundary, FlowBoundaryModel,
    FlowContext, FlowControlRegion, FlowControlRegionModel, FlowEdge, FlowEdgeModel, FlowNode,
    FlowNodeModel, FlowOrderAuthority, FlowRequestModel, FlowSource, FlowStateModel,
    FlowSupportRefModel, IndexedFactModel, PreparedFlowSliceModel,
};
use crate::thread_flow_cfg::PreparedLocalCfgModel;
use crate::thread_flow_depth::{bounding_keeps_flow, node_of_symbol, traversal_keeps_start};

verus! {

/// The code of a boundary that says that an order is to be verified.
pub open spec fn order_code() -> Seq<char> {
    "VERIFY_CONTROL_FLOW_ORDER"@
}

/// An edge without its order.
pub open spec fn unordered_edge(e: FlowEdgeModel) -> FlowEdgeModel {
    FlowEdgeModel {
        order_authority: FlowOrderAuthority::UnorderedStaticRelation,
        cfg_graph_id: None,
        cfg_node_ids: Seq::empty(),
        ..e
    }
}

/// Some edges without their orders.
pub open spec fn unordered(edges: Seq<FlowEdgeModel>) -> Seq<FlowEdgeModel> {
    edges.map_values(|e: FlowEdgeModel| unordered_edge(e))
}

/// Whether a boundary is among others. One whose identity is that of an order to be
/// verified stands for it too.
pub open spec fn stands_among(b: FlowBoundaryModel, all: Seq<FlowBoundaryModel>) -> bool {
    all.contains(b) || exists|j: int|
        0 <= j < all.len() && (#[trigger] all[j]).boundary_id == b.boundary_id && all[j].code
            == order_code()
}

/// Whether identities tell the boundaries of two slices apart.
pub open spec fn boundaries_are_told_apart(
    a: Seq<FlowBoundaryModel>,
    b: Seq<FlowBoundaryModel>,
) -> bool {
    forall|i: int, j: int|
        0 <= i < a.len() && 0 <= j < b.len() && (#[trigger] a[i]).boundary_id == (
        #[trigger] b[j]).boundary_id ==> a[i] == b[j]
}

/// Whether the second boundaries are the first with some orders to be verified.
#[verifier::opaque]
pub open spec fn adds_orders(
    plain: Seq<FlowBoundaryModel>,
    more: Seq<FlowBoundaryModel>,
) -> bool {
    &&& is_table::<FlowBoundary>(plain)
    &&& is_table::<FlowBoundary>(more)
    &&& forall|i: int| 0 <= i < plain.len() ==> stands_among(#[trigger] plain[i], more)
    &&& forall|j: int|
        0 <= j < more.len() ==> (#[trigger] more[j]).code == order_code() || plain.contains(
            more[j],
        )
}

/// Whether the second state is the first but for orders.
pub open spec fn same_flow(plain: FlowStateModel, more: FlowStateModel) -> bool {
    &&& plain.nodes == more.nodes
    &&& plain.visited == more.visited
    &&& plain.queue == more.queue
    &&& plain.truncated == more.truncated
    &&& plain.edges.len() == more.edges.len()
    &&& unordered(plain.edges) == unordered(more.edges)
    &&& adds_orders(plain.boundaries, more.boundaries)
}

/// Whether two outcomes, where both are states, are the same but for orders.
pub open spec fn same_flows(
    plain: Result<FlowStateModel, ErrorModel>,
    more: Result<FlowStateModel, ErrorModel>,
) -> bool {
    match (plain, more) {
        (Ok(p), Ok(q)) => same_flow(p, q),
        _ => true,
    }
}

/// Whether the second context is the first with graphs.
pub open spec fn adds_graphs(cx: FlowContext, more: FlowContext) -> bool {
    &&& cx.cfg is None
    &&& more.cfg is Some
    &&& more == (FlowContext { cfg: more.cfg, ..cx })
}

proof fn new_record_is_there<T: Keyed>(t: Seq<<T as DeepView>::V>, x: <T as DeepView>::V)
    requires
        is_table::<T>(t),
        !has_key::<T>(t, T::key(x)),
    ensures
        entered::<T>(t, x).contains(x),
{
    entered_keeps_table::<T>(t, x);
    let e = entered::<T>(t, x);
    let k = choose|k: int| 0 <= k < e.len() && T::key(#[trigger] e[k]) == T::key(x);
    if e[k] != x {
        assert(t.contains(e[k]));
        let j = choose|j: int| 0 <= j < t.len() && t[j] == e[k];
        assert(T::key(t[j]) == T::key(x));
    }
}

proof fn stands_among_more(b: FlowBoundaryModel, all: Seq<FlowBoundaryModel>, x: FlowBoundaryModel)
    requires
        is_table::<FlowBoundary>(all),
        stands_among(b, all),
    ensures
        stands_among(b, entered::<FlowBoundary>(all, x)),
{
    entered_keeps_table::<FlowBoundary>(all, x);
    let e = entered::<FlowBoundary>(all, x);
    if !all.contains(b) {
        let j = choose|j: int|
            0 <= j < all.len() && (#[trigger] all[j]).boundary_id == b.boundary_id && all[j].code
                == order_code();
        assert(all.contains(all[j]));
        assert(e.contains(all[j]));
        let k = choose|k: int| 0 <= k < e.len() && e[k] == all[j];
        assert(e[k].boundary_id == b.boundary_id);
    }
}

proof fn what_stands_has_a_key(b: FlowBoundaryModel, all: Seq<FlowBoundaryModel>)
    requires
        stands_among(b, all),
    ensures
        has_key::<FlowBoundary>(all, b.boundary_id),
{
    if all.contains(b) {
        let j = choose|j: int| 0 <= j < all.len() && all[j] == b;
        assert(FlowBoundary::key(all[j]) == b.boundary_id);
    } else {
        let j = choose|j: int|
            0 <= j < all.len() && (#[trigger] all[j]).boundary_id == b.boundary_id && all[j].code
                == order_code();
        assert(FlowBoundary::key(all[j]) == b.boundary_id);
    }
}

/// The same boundary entered on both sides leaves only orders to tell them apart.
proof fn same_boundary_adds_orders(
    plain: Seq<FlowBoundaryModel>,
    more: Seq<FlowBoundaryModel>,
    x: FlowBoundaryModel,
)
    requires
        adds_orders(plain, more),
    ensures
        adds_orders(entered::<FlowBoundary>(plain, x), entered::<FlowBoundary>(more, x)),
{
    reveal(adds_orders);
    entered_keeps_table::<FlowBoundary>(plain, x);
    entered_keeps_table::<FlowBoundary>(more, x);
    let p = entered::<FlowBoundary>(plain, x);
    let q = entered::<FlowBoundary>(more, x);
    let id = x.boundary_id;
    assert(FlowBoundary::key(x) == id);
    if has_key::<FlowBoundary>(more, id) {
        entered_keeps_what_is_there::<FlowBoundary>(more, x);
    } else {
        new_record_is_there::<FlowBoundary>(more, x);
    }
    if has_key::<FlowBoundary>(plain, id) {
        entered_keeps_what_is_there::<FlowBoundary>(plain, x);
        let k = choose|k: int| 0 <= k < plain.len() && FlowBoundary::key(#[trigger] plain[k]) == id;
        what_stands_has_a_key(plain[k], more);
    } else {
        new_record_is_there::<FlowBoundary>(plain, x);
    }
    assert(stands_among(x, q) || p == plain) by {
        if has_key::<FlowBoundary>(more, id) && !has_key::<FlowBoundary>(plain, id) {
            let j = choose|j: int| 0 <= j < more.len() && FlowBoundary::key(#[trigger] more[j]) == id;
            if plain.contains(more[j]) {
                let k = choose|k: int| 0 <= k < plain.len() && plain[k] == more[j];
                assert(FlowBoundary::key(plain[k]) == id);
            }
            assert(q[j].boundary_id == x.boundary_id);
        }
    }
    assert forall|i: int| 0 <= i < p.len() implies stands_among(#[trigger] p[i], q) by {
        if p == plain || p[i] != x {
            assert(plain.contains(p[i]));
            let k = choose|k: int| 0 <= k < plain.len() && plain[k] == p[i];
            stands_among_more(plain[k], more, x);
        }
    }
    assert forall|j: int| 0 <= j < q.len() implies (#[trigger] q[j]).code == order_code()
        || p.contains(q[j]) by {
        if more.contains(q[j]) {
            let k = choose|k: int| 0 <= k < more.len() && more[k] == q[j];
            if plain.contains(more[k]) {
                assert(p.contains(more[k]));
            }
        } else {
            assert(q[j] == x);
            assert(!has_key::<FlowBoundary>(more, id));
            assert(!has_key::<FlowBoundary>(plain, id));
        }
    }
}

/// A boundary that says that an order is to be verified may be entered on the second side
/// alone.
proof fn order_boundary_adds_orders(
    plain: Seq<FlowBoundaryModel>,
    more: Seq<FlowBoundaryModel>,
    x: FlowBoundaryModel,
)
    requires
        adds_orders(plain, more),
        x.code == order_code(),
    ensures
        adds_orders(plain, entered::<FlowBoundary>(more, x)),
{
    reveal(adds_orders);
    entered_keeps_table::<FlowBoundary>(more, x);
    let q = entered::<FlowBoundary>(more, x);
    assert forall|i: int| 0 <= i < plain.len() implies stands_among(#[trigger] plain[i], q) by {
        stands_among_more(plain[i], more, x);
    }
    assert forall|j: int| 0 <= j < q.len() implies (#[trigger] q[j]).code == order_code()
        || plain.contains(q[j]) by {
        if q[j] != x {
            assert(more.contains(q[j]));
            let k = choose|k: int| 0 <= k < more.len() && more[k] == q[j];
            assert(more[k].code == order_code() || plain.contains(more[k]));
        }
    }
}

proof fn same_edges_entered(
    a: Seq<FlowEdgeModel>,
    b: Seq<FlowEdgeModel>,
    x: FlowEdgeModel,
    y: FlowEdgeModel,
)
    requires
        a.len() == b.len(),
        unordered(a) == unordered(b),
        unordered_edge(x) == unordered_edge(y),
    ensures
        entered::<FlowEdge>(a, x).len() == entered::<FlowEdge>(b, y).len(),
        unordered(entered::<FlowEdge>(a, x)) == unordered(entered::<FlowEdge>(b, y)),
    decreases a.len(),
{
    assert(x.edge_id == unordered_edge(x).edge_id && y.edge_id == unordered_edge(y).edge_id);
    let p = entered::<FlowEdge>(a, x);
    let q = entered::<FlowEdge>(b, y);
    if a.len() == 0 {
        assert(unordered(p) =~= unordered(q));
    } else {
        assert(unordered(a)[0] == unordered_edge(a[0]));
        assert(unordered(b)[0] == unordered_edge(b[0]));
        assert(a[0].edge_id == unordered_edge(a[0]).edge_id);
        assert(b[0].edge_id == unordered_edge(b[0]).edge_id);
        let ra = a.drop_first();
        let rb = b.drop_first();
        assert(unordered(ra) =~= unordered(a).drop_first());
        assert(unordered(rb) =~= unordered(b).drop_first());
        same_edges_entered(ra, rb, x, y);
        assert(unordered(seq![a[0]] + entered::<FlowEdge>(ra, x)) =~= seq![unordered_edge(a[0])]
            + unordered(entered::<FlowEdge>(ra, x)));
        assert(unordered(seq![b[0]] + entered::<FlowEdge>(rb, y)) =~= seq![unordered_edge(b[0])]
            + unordered(entered::<FlowEdge>(rb, y)));
        assert(unordered(seq![x] + a) =~= seq![unordered_edge(x)] + unordered(a));
        assert(unordered(seq![y] + b) =~= seq![unordered_edge(y)] + unordered(b));
    }
}

proof fn same_boundary(
    cx: FlowContext,
    cx2: FlowContext,
    plain: FlowStateModel,
    more: FlowStateModel,
    code: Seq<char>,
    subject: Seq<char>,
    checks: Seq<Seq<char>>,
    support: Seq<FlowSupportRefModel>,
)
    requires
        adds_graphs(cx, cx2),
        same_flow(plain, more),
    ensures
        same_flows(
            with_boundary(cx, plain, code, subject, checks, support),
            with_boundary(cx2, more, code, subject, checks, support),
        ),
{
    if let Ok(p) = with_boundary(cx, plain, code, subject, checks, support) {
        let b = FlowBoundaryModel {
            boundary_id: boundary_id(cx.request.member_alias, code, subject, support),
            code,
            subject,
            required_checks: first_table::<String>(checks),
            support_refs: support,
        };
        same_boundary_adds_orders(plain.boundaries, more.boundaries, b);
    }
}

proof fn order_boundary(
    cx2: FlowContext,
    plain: FlowStateModel,
    more: FlowStateModel,
    subject: Seq<char>,
    checks: Seq<Seq<char>>,
    support: Seq<FlowSupportRefModel>,
)
    requires
        same_flow(plain, more),
    ensures
        match with_boundary(cx2, more, order_code(), subject, checks, support) {
            Ok(q) => same_flow(plain, q),
            Err(_) => true,
        },
{
    if let Ok(q) = with_boundary(cx2, more, order_code(), subject, checks, support) {
        let b = FlowBoundaryModel {
            boundary_id: boundary_id(cx2.request.member_alias, order_code(), subject, support),
            code: order_code(),
            subject,
            required_checks: first_table::<String>(checks),
            support_refs: support,
        };
        order_boundary_adds_orders(plain.boundaries, more.boundaries, b);
    }
}

proof fn same_handoff(
    cx: FlowContext,
    cx2: FlowContext,
    plain: FlowStateModel,
    more: FlowStateModel,
    source: FlowSource,
    f: IndexedFactModel,
    row: UseFactModel,
)
    requires
        adds_graphs(cx, cx2),
        same_flow(plain, more),
    ensures
        same_flows(
            handoff_step(cx, plain, source, f, row),
            handoff_step(cx2, more, source, f, row),
        ),
{
    let support = seq![support_of(f)];
    let id = row.target_callable_id;
    assert(is_sole_declared_pair(cx) == is_sole_declared_pair(cx2));
    same_boundary(
        cx,
        cx2,
        plain,
        more,
        "AMBIGUOUS_DECLARED_TOPOLOGY_HANDOFF"@,
        id,
        seq!["DISAMBIGUATE_DECLARED_COMPONENT_PAIR"@],
        support,
    );
    same_boundary(
        cx,
        cx2,
        plain,
        more,
        "DECLARED_TOPOLOGY_DIRECTION_MISMATCH"@,
        id,
        seq!["VERIFY_DECLARED_CONSUMER_PROVIDER_DIRECTION"@],
        support,
    );
    same_boundary(
        cx,
        cx2,
        cut(plain),
        cut(more),
        "FLOW_NODE_BUDGET_TRUNCATED"@,
        id,
        seq!["SELECT_NARROWER_ROOT"@],
        support,
    );
    if let Some(target) = record_at::<CallableMemberBinding>(cx.members, cx.pair.provider_member) {
        if let Some(source_member) = record_at::<CallableMemberBinding>(
            cx.members,
            cx.request.member_alias,
        ) {
            let node = handoff_node(target, id, (source.depth + 1) as usize);
            let nodes = entered::<FlowNode>(plain.nodes, node);
            let plain2 = FlowStateModel { nodes, ..plain };
            let more2 = FlowStateModel { nodes, ..more };
            same_boundary(
                cx,
                cx2,
                cut(plain2),
                cut(more2),
                "FLOW_EDGE_BUDGET_TRUNCATED"@,
                source.symbol,
                seq!["SELECT_NARROWER_ROOT"@],
                support,
            );
            let edge = edge_of(
                source,
                source_member,
                node.node_id,
                target,
                f,
                row,
                handoff_edge_id(source.node_id, node.node_id, row.fact_id),
                (FlowOrderAuthority::Unknown, None, Seq::empty()),
            );
            same_edges_entered(plain.edges, more.edges, edge, edge);
            same_boundary(
                cx,
                cx2,
                FlowStateModel { edges: entered::<FlowEdge>(plain.edges, edge), ..plain2 },
                FlowStateModel { edges: entered::<FlowEdge>(more.edges, edge), ..more2 },
                "DECLARED_TOPOLOGY_HANDOFF"@,
                id,
                seq!["VERIFY_RUNTIME_COMPONENT_HANDOFF"@],
                support,
            );
        }
    }
}

proof fn same_callable(
    cx: FlowContext,
    cx2: FlowContext,
    plain: FlowStateModel,
    more: FlowStateModel,
    source: FlowSource,
    f: IndexedFactModel,
    row: UseFactModel,
    symbol: Seq<char>,
    target: IndexedFactModel,
)
    requires
        adds_graphs(cx, cx2),
        same_flow(plain, more),
    ensures
        same_flows(
            callable_step(cx, plain, source, f, row, symbol, target),
            callable_step(cx2, more, source, f, row, symbol, target),
        ),
{
    let support = seq![support_of(f)];
    let depth = (source.depth + 1) as usize;
    same_boundary(
        cx,
        cx2,
        cut(plain),
        cut(more),
        "FLOW_NODE_BUDGET_TRUNCATED"@,
        symbol,
        seq!["SELECT_NARROWER_ROOT"@],
        support,
    );
    assert(node_of(cx, target, depth) == node_of(cx2, target, depth));
    if let Ok(node) = node_of(cx, target, depth) {
        let nodes = entered::<FlowNode>(plain.nodes, node);
        let plain2 = FlowStateModel { nodes, ..plain };
        let more2 = FlowStateModel { nodes, ..more };
        same_boundary(
            cx,
            cx2,
            cut(plain2),
            cut(more2),
            "FLOW_EDGE_BUDGET_TRUNCATED"@,
            source.symbol,
            seq!["SELECT_NARROWER_ROOT"@],
            support,
        );
        order_boundary(
            cx2,
            plain2,
            more2,
            source.symbol,
            seq!["VERIFY_CONTROL_FLOW_ORDER"@],
            support,
        );
        if let Some(member) = record_at::<CallableMemberBinding>(
            cx.members,
            cx.request.member_alias,
        ) {
            let id = edge_id_of(source.node_id, node.node_id, row.fact_id);
            let a = edge_of(source, member, node.node_id, member, f, row, id, order_of(cx, source, row));
            let b = edge_of(source, member, node.node_id, member, f, row, id, order_of(cx2, source, row));
            same_edges_entered(plain.edges, more.edges, a, b);
        }
    }
}

proof fn same_use(
    cx: FlowContext,
    cx2: FlowContext,
    plain: FlowStateModel,
    more: FlowStateModel,
    source: FlowSource,
    f: IndexedFactModel,
)
    requires
        adds_graphs(cx, cx2),
        same_flow(plain, more),
    ensures
        same_flows(use_step(cx, plain, source, f), use_step(cx2, more, source, f)),
{
    reveal(use_step);
    if let CallableFactModel::Use(row) = f.fact {
        let support = seq![support_of(f)];
        assert(stays_inside(cx, row) == stays_inside(cx2, row));
        assert(points_outside_pair(cx, row) == points_outside_pair(cx2, row));
        same_boundary(
            cx,
            cx2,
            plain,
            more,
            "TARGET_OUTSIDE_SELECTED_PAIR"@,
            target_subject(row),
            seq!["SELECT_PAIR_CONTAINING_TARGET_MEMBER"@],
            support,
        );
        same_boundary(
            cx,
            cx2,
            plain,
            more,
            "UNSUPPORTED_EXACT_PAIR_DEPENDENCY"@,
            target_subject(row),
            seq!["VERIFY_PAIR_DEPENDENCY_OUTSIDE_V1"@],
            support,
        );
        same_handoff(cx, cx2, plain, more, source, f, row);
        same_boundary(
            cx,
            cx2,
            plain,
            more,
            "UNBOUND_COMPONENT_TARGET"@,
            row.target_callable_id,
            seq!["BIND_TARGET_TO_SELECTED_PAIR"@],
            support,
        );
        same_boundary(
            cx,
            cx2,
            plain,
            more,
            "UNRESOLVED_TARGET"@,
            row.target_callable_id,
            seq!["RESOLVE_EXACT_FULL_SYMBOL"@],
            support,
        );
        if let Some(symbol) = exact_target(row) {
            let targets = declarations_of(cx.facts, cx.request.member_alias, symbol);
            same_boundary(
                cx,
                cx2,
                plain,
                more,
                "MISSING_TARGET_DECLARATION"@,
                symbol,
                seq!["VERIFY_TARGET_DECLARATION_IN_RETAINED_FACT_SET"@],
                support,
            );
            same_boundary(
                cx,
                cx2,
                plain,
                more,
                "AMBIGUOUS_TARGET_DECLARATION"@,
                symbol,
                seq!["DISAMBIGUATE_TARGET_FULL_SYMBOL"@],
                support,
            );
            same_callable(cx, cx2, plain, more, source, f, row, symbol, targets[0]);
        }
    }
}

proof fn same_uses(
    cx: FlowContext,
    cx2: FlowContext,
    plain: FlowStateModel,
    more: FlowStateModel,
    source: FlowSource,
    uses: Seq<IndexedFactModel>,
    i: int,
)
    requires
        adds_graphs(cx, cx2),
        same_flow(plain, more),
    ensures
        same_flows(
            uses_step(cx, plain, source, uses, i),
            uses_step(cx2, more, source, uses, i),
        ),
    decreases uses.len() - i,
{
    if 0 <= i < uses.len() {
        same_use(cx, cx2, plain, more, source, uses[i]);
        if let Ok(p) = use_step(cx, plain, source, uses[i]) {
            if let Ok(q) = use_step(cx2, more, source, uses[i]) {
                same_uses(cx, cx2, p, q, source, uses, i + 1);
            }
        }
    }
}

proof fn same_symbol(
    cx: FlowContext,
    cx2: FlowContext,
    plain: FlowStateModel,
    more: FlowStateModel,
    symbol: Seq<char>,
    depth: usize,
)
    requires
        adds_graphs(cx, cx2),
        same_flow(plain, more),
    ensures
        same_flows(symbol_step(cx, plain, symbol, depth), symbol_step(cx2, more, symbol, depth)),
{
    let member = cx.request.member_alias;
    if let Some(node_id) = node_for(plain.nodes, member, symbol) {
        let declared = declarations_of(cx.facts, member, symbol);
        same_boundary(
            cx,
            cx2,
            plain,
            more,
            "MISSING_SOURCE_CALLABLE_ID"@,
            symbol,
            seq!["VERIFY_EXACT_SOURCE_CALLABLE_ID"@],
            seq![support_of(declared[0])],
        );
        if let Some(callable_id) = declared[0].fact->Declaration_0.compiler_callable_id {
            same_boundary(
                cx,
                cx2,
                plain,
                more,
                "AMBIGUOUS_SOURCE_OWNER_OVERLOAD"@,
                callable_id,
                seq!["DISAMBIGUATE_RELATION_SOURCE_OVERLOAD"@],
                seq![support_of(declared[0])],
            );
            same_boundary(
                cx,
                cx2,
                cut(plain),
                cut(more),
                "FLOW_DEPTH_TRUNCATED"@,
                symbol,
                seq!["INCREASE_MAX_DEPTH_OR_SELECT_NARROWER_ROOT"@],
                Seq::empty(),
            );
            same_uses(
                cx,
                cx2,
                plain,
                more,
                FlowSource { symbol, depth, node_id },
                outgoing_of(cx.facts, member, callable_id),
                0,
            );
        }
    }
}

proof fn same_traversal(
    cx: FlowContext,
    cx2: FlowContext,
    plain: FlowStateModel,
    more: FlowStateModel,
    n: nat,
)
    requires
        adds_graphs(cx, cx2),
        same_flow(plain, more),
    ensures
        same_flows(traversed(cx, plain, n), traversed(cx2, more, n)),
    decreases n,
{
    if n > 0 && plain.queue.len() > 0 {
        let next = plain.queue[0];
        let queue = plain.queue.drop_first();
        let plain2 = FlowStateModel { queue, ..plain };
        let more2 = FlowStateModel { queue, ..more };
        same_symbol(cx, cx2, plain2, more2, next.symbol, next.depth);
        if let Ok(p) = symbol_step(cx, plain2, next.symbol, next.depth) {
            if let Ok(q) = symbol_step(cx2, more2, next.symbol, next.depth) {
                same_traversal(cx, cx2, p, q, (n - 1) as nat);
            }
        }
    }
}

proof fn same_supports(
    cx: FlowContext,
    cx2: FlowContext,
    plain: FlowStateModel,
    more: FlowStateModel,
    subject: Seq<char>,
    supports: Seq<FlowSupportRefModel>,
    i: int,
)
    requires
        adds_graphs(cx, cx2),
        same_flow(plain, more),
    ensures
        same_flows(
            supports_anchored(cx, plain, subject, supports, i),
            supports_anchored(cx2, more, subject, supports, i),
        ),
    decreases supports.len() - i,
{
    if 0 <= i < supports.len() {
        if supports[i].source is Some {
            same_supports(cx, cx2, plain, more, subject, supports, i + 1);
        } else {
            let code = "MISSING_SOURCE_ANCHOR"@;
            let checks = seq!["VERIFY_EXACT_SOURCE_ANCHOR"@];
            let support = seq![supports[i]];
            same_boundary(cx, cx2, plain, more, code, subject, checks, support);
            if let Ok(p) = with_boundary(cx, plain, code, subject, checks, support) {
                if let Ok(q) = with_boundary(cx2, more, code, subject, checks, support) {
                    same_supports(cx, cx2, p, q, subject, supports, i + 1);
                }
            }
        }
    }
}

proof fn same_nodes_anchored(
    cx: FlowContext,
    cx2: FlowContext,
    plain: FlowStateModel,
    more: FlowStateModel,
    nodes: Seq<FlowNodeModel>,
    i: int,
)
    requires
        adds_graphs(cx, cx2),
        same_flow(plain, more),
    ensures
        same_flows(nodes_anchored(cx, plain, nodes, i), nodes_anchored(cx2, more, nodes, i)),
    decreases nodes.len() - i,
{
    if 0 <= i < nodes.len() {
        let subject = nodes[i].symbol_identity;
        let supports = nodes[i].support_refs;
        same_supports(cx, cx2, plain, more, subject, supports, 0);
        if let Ok(p) = supports_anchored(cx, plain, subject, supports, 0) {
            if let Ok(q) = supports_anchored(cx2, more, subject, supports, 0) {
                same_nodes_anchored(cx, cx2, p, q, nodes, i + 1);
            }
        }
    }
}

proof fn same_edges_anchored(
    cx: FlowContext,
    cx2: FlowContext,
    plain: FlowStateModel,
    more: FlowStateModel,
    a: Seq<FlowEdgeModel>,
    b: Seq<FlowEdgeModel>,
    i: int,
)
    requires
        adds_graphs(cx, cx2),
        same_flow(plain, more),
        a.len() == b.len(),
        unordered(a) == unordered(b),
    ensures
        same_flows(edges_anchored(cx, plain, a, i), edges_anchored(cx2, more, b, i)),
    decreases a.len() - i,
{
    if 0 <= i < a.len() {
        assert(unordered(a)[i] == unordered_edge(a[i]));
        assert(unordered(b)[i] == unordered_edge(b[i]));
        let subject = unordered_edge(a[i]).source_node_id;
        let supports = unordered_edge(a[i]).support_refs;
        assert(subject == a[i].source_node_id && supports == a[i].support_refs);
        assert(subject == b[i].source_node_id && supports == b[i].support_refs);
        same_supports(cx, cx2, plain, more, subject, supports, 0);
        if let Ok(p) = supports_anchored(cx, plain, subject, supports, 0) {
            if let Ok(q) = supports_anchored(cx2, more, subject, supports, 0) {
                same_edges_anchored(cx, cx2, p, q, a, b, i + 1);
            }
        }
    }
}

proof fn same_facts_bounded(
    cx: FlowContext,
    cx2: FlowContext,
    plain: FlowStateModel,
    more: FlowStateModel,
    i: int,
)
    requires
        adds_graphs(cx, cx2),
        same_flow(plain, more),
    ensures
        same_flows(facts_bounded(cx, plain, i), facts_bounded(cx2, more, i)),
    decreases cx.facts.len() - i,
{
    if 0 <= i < cx.facts.len() {
        let f = cx.facts[i];
        assert(is_relevant_boundary(cx, plain, f) == is_relevant_boundary(cx2, more, f));
        if !is_relevant_boundary(cx, plain, f) {
            same_facts_bounded(cx, cx2, plain, more, i + 1);
        } else {
            let row = f.fact->Boundary_0;
            let subject = row.subject.unwrap();
            let support = seq![support_of(f)];
            same_boundary(cx, cx2, plain, more, row.code, subject, row.required_checks, support);
            if let Ok(p) = with_boundary(cx, plain, row.code, subject, row.required_checks, support) {
                if let Ok(q) = with_boundary(
                    cx2,
                    more,
                    row.code,
                    subject,
                    row.required_checks,
                    support,
                ) {
                    same_facts_bounded(cx, cx2, p, q, i + 1);
                }
            }
        }
    }
}

proof fn regions_add_orders(
    cx2: FlowContext,
    catalog: Map<(Seq<char>, Seq<char>), PreparedLocalCfgModel>,
    plain: FlowStateModel,
    more: FlowStateModel,
    regions: Seq<FlowControlRegionModel>,
    symbols: Seq<Seq<char>>,
    i: int,
)
    requires
        same_flow(plain, more),
    ensures
        match regions_built(cx2, catalog, more, regions, symbols, i) {
            Ok(done) => same_flow(plain, done.0),
            Err(_) => true,
        },
    decreases symbols.len() - i,
{
    if 0 <= i < symbols.len() {
        order_boundary(
            cx2,
            plain,
            more,
            symbols[i],
            seq!["VERIFY_CONTROL_FLOW_ORDER"@],
            Seq::empty(),
        );
        if let Ok((q, regions2)) = region_step(cx2, catalog, more, regions, symbols[i]) {
            regions_add_orders(cx2, catalog, plain, q, regions2, symbols, i + 1);
        }
    }
}

proof fn same_completion(cx: FlowContext, cx2: FlowContext, st: FlowStateModel)
    requires
        adds_graphs(cx, cx2),
        same_flow(st, st),
    ensures
        match (completed(cx, st), completed(cx2, st)) {
            (Ok(p), Ok(q)) => same_flow(p.0, q.0),
            _ => true,
        },
{
    if completed(cx, st) is Ok && completed(cx2, st) is Ok {
        same_traversal(cx, cx2, st, st, cx.facts.len());
        let p1 = traversed(cx, st, cx.facts.len())->Ok_0;
        let q1 = traversed(cx2, st, cx.facts.len())->Ok_0;
        same_nodes_anchored(cx, cx2, p1, q1, p1.nodes, 0);
        let p2 = nodes_anchored(cx, p1, p1.nodes, 0)->Ok_0;
        let q2 = nodes_anchored(cx2, q1, p1.nodes, 0)->Ok_0;
        same_edges_anchored(cx, cx2, p2, q2, p2.edges, q2.edges, 0);
        let p3 = edges_anchored(cx, p2, p2.edges, 0)->Ok_0;
        let q3 = edges_anchored(cx2, q2, q2.edges, 0)->Ok_0;
        same_facts_bounded(cx, cx2, p3, q3, 0);
        let p4 = facts_bounded(cx, p3, 0)->Ok_0;
        let q4 = facts_bounded(cx2, q3, 0)->Ok_0;
        regions_add_orders(cx2, cx2.cfg->0, p4, q4, Seq::empty(), q4.visited, 0);
    }
}

/// Graphs change nothing of a slice but orders: the slices with and without them have the
/// same root, nodes and status, and the same edges but for what their order rests on. Every
/// boundary of the slice without graphs stands among those of the other, where identities
/// tell boundaries apart, and every other boundary of that slice says that an order is to be
/// verified. Where they do not, the boundary of such an order may stand for one with its
/// identity.
pub proof fn graphs_change_only_orders(
    request: FlowRequestModel,
    set: PreparedCallableFactSetModel,
    catalog: Map<(Seq<char>, Seq<char>), PreparedLocalCfgModel>,
)
    requires
        flow_built(request, set, None) is Ok,
        flow_built(request, set, Some(catalog)) is Ok,
    ensures
        ({
            let p = flow_built(request, set, None)->Ok_0.slice;
            let q = flow_built(request, set, Some(catalog))->Ok_0.slice;
            &&& q.request == p.request
            &&& q.root_node_id == p.root_node_id
            &&& q.nodes == p.nodes
            &&& q.status == p.status
            &&& q.edges.len() == p.edges.len()
            &&& forall|i: int|
                0 <= i < p.edges.len() ==> unordered_edge(#[trigger] q.edges[i]) == unordered_edge(
                    p.edges[i],
                )
            &&& forall|i: int|
                0 <= i < p.boundaries.len() ==> stands_among(
                    #[trigger] p.boundaries[i],
                    q.boundaries,
                )
            &&& forall|i: int|
                0 <= i < q.boundaries.len() ==> (#[trigger] q.boundaries[i]).code
                    == "VERIFY_CONTROL_FLOW_ORDER"@ || p.boundaries.contains(q.boundaries[i])
            &&& boundaries_are_told_apart(p.boundaries, q.boundaries) ==> forall|i: int|
                0 <= i < p.boundaries.len() ==> q.boundaries.contains(#[trigger] p.boundaries[i])
        }),
{
    let pair = request_checked(request, set)->Ok_0;
    let facts = facts_read(set)->Ok_0;
    let cx = context_of(request, set, pair, facts, None);
    let cx2 = context_of(request, set, pair, facts, Some(catalog));
    assert(started(cx) == started(cx2));
    let st = started(cx)->Ok_0;
    assert(same_flow(st, st)) by {
        reveal(adds_orders);
    }
    same_completion(cx, cx2, st);
    let p = flow_built(request, set, None)->Ok_0.slice;
    let q = flow_built(request, set, Some(catalog))->Ok_0.slice;
    assert(adds_orders(p.boundaries, q.boundaries));
    reveal(adds_orders);
    assert forall|i: int| 0 <= i < p.edges.len() implies unordered_edge(#[trigger] q.edges[i])
        == unordered_edge(p.edges[i]) by {
        assert(unordered(p.edges)[i] == unordered_edge(p.edges[i]));
        assert(unordered(q.edges)[i] == unordered_edge(q.edges[i]));
    }
    if boundaries_are_told_apart(p.boundaries, q.boundaries) {
        assert forall|i: int| 0 <= i < p.boundaries.len() implies q.boundaries.contains(
            #[trigger] p.boundaries[i],
        ) by {
            assert(stands_among(p.boundaries[i], q.boundaries));
            if !q.boundaries.contains(p.boundaries[i]) {
                let j = choose|j: int|
                    0 <= j < q.boundaries.len() && (#[trigger] q.boundaries[j]).boundary_id
                        == p.boundaries[i].boundary_id && q.boundaries[j].code == order_code();
                assert(q.boundaries[j] == p.boundaries[i]);
            }
        }
    }
}

/// The identity of the boundary that says that the order in a callable is to be verified.
pub open spec fn order_id(member: Seq<char>, symbol: Seq<char>) -> Seq<char> {
    boundary_id(member, order_code(), symbol, Seq::empty())
}

proof fn region_step_leaves_a_mark(
    cx: FlowContext,
    catalog: Map<(Seq<char>, Seq<char>), PreparedLocalCfgModel>,
    st: FlowStateModel,
    regions: Seq<FlowControlRegionModel>,
    next: Seq<char>,
    id: Seq<char>,
)
    ensures
        match region_step(cx, catalog, st, regions, next) {
            Ok((after, more)) => {
                &&& after.nodes == st.nodes
                &&& regions.len() <= more.len()
                &&& has_key::<FlowBoundary>(st.boundaries, id) ==> has_key::<FlowBoundary>(
                    after.boundaries,
                    id,
                )
                &&& node_for(st.nodes, cx.request.member_alias, next) is Some
                    ==> regions.len() < more.len() || has_key::<FlowBoundary>(
                    after.boundaries,
                    order_id(cx.request.member_alias, next),
                )
            },
            Err(_) => true,
        },
{
    let x = FlowBoundaryModel {
        boundary_id: order_id(cx.request.member_alias, next),
        code: order_code(),
        subject: next,
        required_checks: first_table::<String>(seq!["VERIFY_CONTROL_FLOW_ORDER"@]),
        support_refs: Seq::empty(),
    };
    let before = st.boundaries;
    let after = entered::<FlowBoundary>(before, x);
    entered_keeps_records::<FlowBoundary>(before, x);
    assert(FlowBoundary::key(x) == x.boundary_id);
    if has_key::<FlowBoundary>(before, id) {
        let k = choose|k: int| 0 <= k < before.len() && FlowBoundary::key(#[trigger] before[k]) == id;
        assert(before.contains(before[k]));
        assert(after.contains(before[k]));
        let j = choose|j: int| 0 <= j < after.len() && after[j] == before[k];
        assert(FlowBoundary::key(after[j]) == id);
    }
}

proof fn regions_leave_marks(
    cx: FlowContext,
    catalog: Map<(Seq<char>, Seq<char>), PreparedLocalCfgModel>,
    st: FlowStateModel,
    regions: Seq<FlowControlRegionModel>,
    symbols: Seq<Seq<char>>,
    i: int,
    k: int,
)
    requires
        0 <= i,
        0 <= k < symbols.len(),
        node_for(st.nodes, cx.request.member_alias, symbols[k]) is Some,
        i <= k || regions.len() > 0 || has_key::<FlowBoundary>(
            st.boundaries,
            order_id(cx.request.member_alias, symbols[k]),
        ),
    ensures
        match regions_built(cx, catalog, st, regions, symbols, i) {
            Ok((done, built)) => built.len() > 0 || has_key::<FlowBoundary>(
                done.boundaries,
                order_id(cx.request.member_alias, symbols[k]),
            ),
            Err(_) => true,
        },
    decreases symbols.len() - i,
{
    if i < symbols.len() {
        let id = order_id(cx.request.member_alias, symbols[k]);
        region_step_leaves_a_mark(cx, catalog, st, regions, symbols[i], id);
        if let Ok((st2, regions2)) = region_step(cx, catalog, st, regions, symbols[i]) {
            regions_leave_marks(cx, catalog, st2, regions2, symbols, i + 1, k);
        }
    }
}

proof fn node_is_found(nodes: Seq<FlowNodeModel>, member: Seq<char>, symbol: Seq<char>, u: FlowNodeModel)
    requires
        nodes.contains(u),
        is_node_of(u, member, symbol),
    ensures
        node_for(nodes, member, symbol) is Some,
    decreases nodes.len(),
{
    let k = choose|k: int| 0 <= k < nodes.len() && nodes[k] == u;
    if !is_node_of(nodes[0], member, symbol) {
        assert(nodes.drop_first()[k - 1] == u);
        node_is_found(nodes.drop_first(), member, symbol, u);
    }
}

/// A slice that was built with graphs shows it: it has a region, or a boundary with the
/// identity of the order in its root.
pub proof fn graphs_leave_a_mark(
    request: FlowRequestModel,
    set: PreparedCallableFactSetModel,
    catalog: Map<(Seq<char>, Seq<char>), PreparedLocalCfgModel>,
    p: PreparedFlowSliceModel,
)
    requires
        flow_built(request, set, Some(catalog)) == Ok::<PreparedFlowSliceModel, ErrorModel>(p),
    ensures
        p.slice.control_flow_regions.len() > 0 || has_key::<FlowBoundary>(
            p.slice.boundaries,
            order_id(request.member_alias, request.root),
        ),
{
    let pair = request_checked(request, set)->Ok_0;
    let facts = facts_read(set)->Ok_0;
    let cx = context_of(request, set, pair, facts, Some(catalog));
    let st = started(cx)->Ok_0;
    let root = st.nodes[0];
    node_of_symbol(cx, request.root, 0);
    assert(st.visited[0] == request.root);
    traversal_keeps_start(cx, st, cx.facts.len(), root, request.root);
    let st1 = traversed(cx, st, cx.facts.len())->Ok_0;
    let st2 = nodes_anchored(cx, st1, st1.nodes, 0)->Ok_0;
    let st3 = edges_anchored(cx, st2, st2.edges, 0)->Ok_0;
    let st4 = facts_bounded(cx, st3, 0)->Ok_0;
    bounding_keeps_flow(cx, st1, st2, st3, st4);
    node_is_found(st4.nodes, request.member_alias, request.root, root);
    let visited = st4.visited;
    let k = choose|k: int| 0 <= k < visited.len() && visited[k] == request.root;
    regions_leave_marks(cx, catalog, st4, Seq::empty(), visited, 0, k);
    let built = regions_built(cx, catalog, st4, Seq::empty(), visited, 0)->Ok_0.1;
    sorting_keeps_length(built);
}

proof fn sorting_keeps_length(regions: Seq<FlowControlRegionModel>)
    ensures
        sorted::<FlowControlRegion>(regions).len() == regions.len(),
{
    broadcast use vstd::seq_lib::group_to_multiset_ensures;

    sorted_is_sorted::<FlowControlRegion>(regions);
    let s = sorted::<FlowControlRegion>(regions);
    assert(s.len() == s.to_multiset().len());
    assert(regions.len() == regions.to_multiset().len());
}

} // verus!
