//! What bounds a flow slice: every boundary fact about a callable that the slice has come to
//! is among its boundaries, with its checks among the obligations, and no boundary stems
//! from facts of another member.

use vstd::prelude::*;
use vstd::string::*;

use crate::canonical::json_digest;
use crate::error::ErrorModel;
use crate::json::JsonModel;
use crate::record::Record;
use crate::table::{
    entered, entered_keeps_records, first_table, has_key, last_table, no_other_record_comes_in,
    record_at, sorted, sorted_is_sorted, table_holds_its_keys, Keyed,
};
use crate::text::after_prefix;
use crate::thread_callables::{
    CallableFactModel, CallableMemberBinding, PreparedCallableFactSetModel, PreparedFactShardModel,
    RelationshipAuthority, TargetResolution, UseFactModel,
};
use crate::thread_flow::{
    boundary_id, callable_step, completed, context_of, cut, declarations_of, declares, edge_id_of,
    edge_of, edges_anchored, exact_target, facts_bounded, facts_of_shard, facts_of_shards,
    facts_read, flow_built, handoff_edge_id, handoff_node, handoff_step, is_declared_use,
    is_relevant_boundary, is_use_by, node_for, node_of, nodes_anchored, order_is_open, order_of,
    outgoing_of, region_step, regions_built, request_checked, started, support_of,
    supports_anchored, symbol_step, target_subject, texts_entered, traversed, use_step, uses_step,
    with_boundary, FlowBoundary, FlowBoundaryModel, FlowCertainty, FlowContext,
    FlowControlRegionModel, FlowEdge, FlowEdgeModel, FlowNode, FlowNodeKind, FlowNodeModel,
    FlowRequestModel, FlowSliceModel, FlowSource, FlowStateModel, FlowStatus, FlowSupportRef,
    FlowSupportRefModel, IndexedFact, IndexedFactModel, PreparedFlowSliceModel,
};
use crate::thread_flow_cfg::PreparedLocalCfgModel;

verus! {

/// Whether a fact set has a fact, in a shard with a reference.
pub open spec fn has_fact(set: PreparedCallableFactSetModel, f: IndexedFactModel) -> bool {
    exists|i: int, j: int| #[trigger] is_fact_at(set, f, i, j)
}

/// Whether a fact is the one at a place of a shard.
pub open spec fn is_fact_at(
    set: PreparedCallableFactSetModel,
    f: IndexedFactModel,
    i: int,
    j: int,
) -> bool {
    &&& 0 <= i < set.fact_shards.len()
    &&& set.fact_shards[i].reference == f.shard_ref
    &&& set.fact_shards[i].shard is Some
    &&& 0 <= j < set.fact_shards[i].shard->0.facts.len()
    &&& set.fact_shards[i].shard->0.facts[j] == f.fact
}

/// The supports of what rests on one fact.
pub open spec fn rests_on(f: IndexedFactModel) -> Seq<FlowSupportRefModel> {
    seq![
        FlowSupportRefModel {
            fact_id: f.fact.fact_id(),
            fact_shard_ref: f.shard_ref,
            provenance: f.fact.provenance(),
            input_payload_ref: f.fact.provenance().input_payload_ref,
            source: f.fact.provenance().source,
        },
    ]
}

/// What a boundary is about, as a digest.
pub open spec fn digest_of_boundary(
    member: Seq<char>,
    code: Seq<char>,
    subject: Seq<char>,
    support: Seq<FlowSupportRefModel>,
) -> Seq<char> {
    json_digest(
        JsonModel::object().with("member"@, JsonModel::Str(member)).with(
            "code"@,
            JsonModel::Str(code),
        ).with("subject"@, JsonModel::Str(subject)).with(
            "support"@,
            <Vec<FlowSupportRef> as Record>::json(support),
        ),
    )
}

/// Whether a slice has a boundary with a code, a subject and supports, or else one that has
/// their digest.
pub open spec fn shows(
    slice: FlowSliceModel,
    code: Seq<char>,
    subject: Seq<char>,
    support: Seq<FlowSupportRefModel>,
) -> bool {
    exists|i: int|
        0 <= i < slice.boundaries.len() && is_shown_by(
            slice.request.member_alias,
            #[trigger] slice.boundaries[i],
            code,
            subject,
            support,
        )
}

/// Whether a boundary is about a code, a subject and supports, or about what has their
/// digest.
pub open spec fn is_shown_by(
    member: Seq<char>,
    b: FlowBoundaryModel,
    code: Seq<char>,
    subject: Seq<char>,
    support: Seq<FlowSupportRefModel>,
) -> bool {
    ||| b.code == code && b.subject == subject && b.support_refs == support
    ||| digest_of_boundary(member, b.code, b.subject, b.support_refs) == digest_of_boundary(
        member,
        code,
        subject,
        support,
    )
}

/// Whether a fact of a set is a boundary fact of a member about a symbol.
pub open spec fn bounds_symbol(
    set: PreparedCallableFactSetModel,
    member: Seq<char>,
    symbol: Seq<char>,
    f: IndexedFactModel,
) -> bool {
    has_fact(set, f) && match f.fact {
        CallableFactModel::Boundary(row) => row.provenance.member_alias == member && row.subject
            == Some(symbol),
        _ => false,
    }
}

/// Whether a slice shows all that the facts of its member say of what bounds a symbol.
pub open spec fn is_bounded(
    set: PreparedCallableFactSetModel,
    slice: FlowSliceModel,
    symbol: Seq<char>,
) -> bool {
    forall|f: IndexedFactModel| #[trigger]
        bounds_symbol(set, slice.request.member_alias, symbol, f) ==> {
            let row = f.fact->Boundary_0;
            &&& shows(slice, row.code, symbol, rests_on(f))
            &&& forall|k: int|
                0 <= k < row.required_checks.len() ==> slice.verification_obligations.contains(
                    #[trigger] row.required_checks[k],
                )
        }
}

/// The symbol that a use resolves to exactly.
pub open spec fn resolves_to(f: IndexedFactModel, symbol: Seq<char>) -> bool {
    match f.fact {
        CallableFactModel::Use(row) => row.target_resolution == TargetResolution::ExactSymbol
            && row.target_symbol_identity == Some(symbol),
        _ => false,
    }
}

/// Whether an edge leads to a symbol by a use of the fact set.
pub open spec fn leads_to(
    set: PreparedCallableFactSetModel,
    e: FlowEdgeModel,
    f: IndexedFactModel,
    symbol: Seq<char>,
) -> bool {
    has_fact(set, f) && e.support_refs == rests_on(f) && resolves_to(f, symbol)
}

/// Whether a code of a boundary, with the check that it asks for, does not come from a fact.
pub open spec fn is_own_code(code: Seq<char>, check: Seq<char>) -> bool {
    ||| code == "TARGET_OUTSIDE_SELECTED_PAIR"@ && check
        == "SELECT_PAIR_CONTAINING_TARGET_MEMBER"@
    ||| code == "UNSUPPORTED_EXACT_PAIR_DEPENDENCY"@ && check
        == "VERIFY_PAIR_DEPENDENCY_OUTSIDE_V1"@
    ||| code == "UNBOUND_COMPONENT_TARGET"@ && check
        == "BIND_TARGET_TO_SELECTED_PAIR"@
    ||| code == "UNRESOLVED_TARGET"@ && check == "RESOLVE_EXACT_FULL_SYMBOL"@
    ||| code == "MISSING_TARGET_DECLARATION"@ && check
        == "VERIFY_TARGET_DECLARATION_IN_RETAINED_FACT_SET"@
    ||| code == "AMBIGUOUS_TARGET_DECLARATION"@ && check
        == "DISAMBIGUATE_TARGET_FULL_SYMBOL"@
    ||| code == "FLOW_NODE_BUDGET_TRUNCATED"@ && check == "SELECT_NARROWER_ROOT"@
    ||| code == "FLOW_EDGE_BUDGET_TRUNCATED"@ && check == "SELECT_NARROWER_ROOT"@
    ||| code == "FLOW_DEPTH_TRUNCATED"@ && check
        == "INCREASE_MAX_DEPTH_OR_SELECT_NARROWER_ROOT"@
    ||| code == "VERIFY_CONTROL_FLOW_ORDER"@ && check == "VERIFY_CONTROL_FLOW_ORDER"@
    ||| code == "AMBIGUOUS_DECLARED_TOPOLOGY_HANDOFF"@ && check
        == "DISAMBIGUATE_DECLARED_COMPONENT_PAIR"@
    ||| code == "DECLARED_TOPOLOGY_DIRECTION_MISMATCH"@ && check
        == "VERIFY_DECLARED_CONSUMER_PROVIDER_DIRECTION"@
    ||| code == "DECLARED_TOPOLOGY_HANDOFF"@ && check
        == "VERIFY_RUNTIME_COMPONENT_HANDOFF"@
    ||| code == "MISSING_SOURCE_CALLABLE_ID"@ && check
        == "VERIFY_EXACT_SOURCE_CALLABLE_ID"@
    ||| code == "AMBIGUOUS_SOURCE_OWNER_OVERLOAD"@ && check
        == "DISAMBIGUATE_RELATION_SOURCE_OVERLOAD"@
    ||| code == "MISSING_SOURCE_ANCHOR"@ && check == "VERIFY_EXACT_SOURCE_ANCHOR"@
}

/// Whether a boundary has a code of its own, or says what a boundary fact of the member says
/// of a symbol that the member declares.
pub open spec fn has_reason(
    set: PreparedCallableFactSetModel,
    member: Seq<char>,
    b: FlowBoundaryModel,
) -> bool {
    ||| exists|check: Seq<char>| #[trigger]
        is_own_code(b.code, check) && b.required_checks == seq![check]
    ||| exists|f: IndexedFactModel, d: IndexedFactModel|
        #![trigger bounds_symbol(set, member, b.subject, f), has_fact(set, d)]
        bounds_symbol(set, member, b.subject, f) && b.code == f.fact->Boundary_0.code
            && b.support_refs == rests_on(f) && has_fact(set, d) && declares(
            d,
            member,
            b.subject,
        )
}

/// Whether all supports come from a member.
pub open spec fn are_of_member(support: Seq<FlowSupportRefModel>, member: Seq<char>) -> bool {
    forall|i: int|
        0 <= i < support.len() ==> (#[trigger] support[i]).provenance.member_alias == member
}

/// Whether a fact is a boundary fact of the member about a symbol that was come to.
pub open spec fn is_relevant(cx: FlowContext, visited: Seq<Seq<char>>, f: IndexedFactModel) -> bool {
    match f.fact {
        CallableFactModel::Boundary(row) => row.provenance.member_alias == cx.request.member_alias
            && row.subject is Some && visited.contains(row.subject->0),
        _ => false,
    }
}

/// Whether a boundary says what a boundary fact says.
pub open spec fn stems_from(b: FlowBoundaryModel, f: IndexedFactModel) -> bool {
    match f.fact {
        CallableFactModel::Boundary(row) => b.code == row.code && row.subject == Some(b.subject)
            && b.support_refs == rests_on(f),
        _ => false,
    }
}

/// Whether a boundary has a code of its own, or stems from a boundary fact.
pub open spec fn is_explained(cx: FlowContext, visited: Seq<Seq<char>>, b: FlowBoundaryModel) -> bool {
    ||| exists|check: Seq<char>| #[trigger]
        is_own_code(b.code, check) && b.required_checks == seq![check]
    ||| exists|k: int|
        0 <= k < cx.facts.len() && stems_from(b, #[trigger] cx.facts[k]) && is_relevant(
            cx,
            visited,
            cx.facts[k],
        )
}

/// Whether the symbol that an edge leads to was come to.
pub open spec fn has_come_to(cx: FlowContext, visited: Seq<Seq<char>>, e: FlowEdgeModel) -> bool {
    e.relationship_authority == RelationshipAuthority::VerifiedSameSnapshotCompilationDependency
        ==> exists|k: int, symbol: Seq<char>|
        #![trigger resolves_to(cx.facts[k], symbol)]
        0 <= k < cx.facts.len() && e.support_refs == rests_on(cx.facts[k]) && resolves_to(
            cx.facts[k],
            symbol,
        ) && visited.contains(symbol)
}

/// What holds of a slice while it is built.
#[verifier::opaque]
pub open spec fn is_grounded(
    cx: FlowContext,
    nodes: Seq<FlowNodeModel>,
    edges: Seq<FlowEdgeModel>,
    boundaries: Seq<FlowBoundaryModel>,
    visited: Seq<Seq<char>>,
    truncated: bool,
) -> bool {
    let member = cx.request.member_alias;
    &&& forall|i: int|
        0 <= i < boundaries.len() ==> {
            let b = #[trigger] boundaries[i];
            &&& b.boundary_id == boundary_id(member, b.code, b.subject, b.support_refs)
            &&& are_of_member(b.support_refs, member)
            &&& is_explained(cx, visited, b)
        }
    &&& forall|i: int| 0 <= i < nodes.len() ==> are_of_member((#[trigger] nodes[i]).support_refs, member)
    &&& forall|i: int|
        0 <= i < nodes.len() && (#[trigger] nodes[i]).node_kind == FlowNodeKind::Callable
            && nodes[i].member_alias == member ==> truncated || visited.contains(
            nodes[i].symbol_identity,
        )
    &&& forall|i: int|
        0 <= i < edges.len() ==> are_of_member((#[trigger] edges[i]).support_refs, member)
            && has_come_to(cx, visited, edges[i])
}

/// What holds of a state while a slice is built.
pub open spec fn grounded(cx: FlowContext, st: FlowStateModel) -> bool {
    is_grounded(cx, st.nodes, st.edges, st.boundaries, st.visited, st.truncated)
}

/// Whether a state has all that an earlier one has.
#[verifier::opaque]
pub open spec fn grows(st: FlowStateModel, after: FlowStateModel) -> bool {
    &&& forall|b: FlowBoundaryModel|
        st.boundaries.contains(b) ==> #[trigger] after.boundaries.contains(b)
    &&& forall|t: Seq<char>| st.obligations.contains(t) ==> #[trigger] after.obligations.contains(t)
    &&& forall|t: Seq<char>| st.visited.contains(t) ==> #[trigger] after.visited.contains(t)
    &&& forall|e: FlowEdgeModel| st.edges.contains(e) ==> #[trigger] after.edges.contains(e)
    &&& st.truncated ==> after.truncated
}

/// Whether an outcome, where it is a state, is grounded and has all that was there.
pub open spec fn all_well(cx: FlowContext, st: FlowStateModel, r: Result<FlowStateModel, ErrorModel>) -> bool {
    match r {
        Ok(after) => grounded(cx, after) && grows(st, after),
        Err(_) => true,
    }
}

/// Growing twice is growing.
pub proof fn grows_further(a: FlowStateModel, b: FlowStateModel, c: FlowStateModel)
    requires
        grows(a, b),
        grows(b, c),
    ensures
        grows(a, c),
{
    reveal(grows);
}

/// A state has all that it has.
pub proof fn grows_at_all(a: FlowStateModel)
    ensures
        grows(a, a),
{
    reveal(grows);
}

proof fn texts_are_there(set: Seq<Seq<char>>, more: Seq<Seq<char>>)
    ensures
        forall|t: Seq<char>| set.contains(t) ==> #[trigger] texts_entered(set, more).contains(t),
        forall|k: int| 0 <= k < more.len() ==> texts_entered(set, more).contains(#[trigger] more[k]),
    decreases more.len(),
{
    if more.len() > 0 {
        let rest = more.drop_last();
        let before = texts_entered(set, rest);
        texts_are_there(set, rest);
        entered_keeps_records::<String>(before, more.last());
        let e = entered::<String>(before, more.last());
        let j = choose|j: int| 0 <= j < e.len() && String::key(#[trigger] e[j]) == String::key(more.last());
        assert(e[j] == more.last());
        assert forall|k: int| 0 <= k < more.len() implies e.contains(#[trigger] more[k]) by {
            if k < rest.len() {
                assert(before.contains(rest[k]));
            }
        }
    }
}

proof fn checks_are_there(obligations: Seq<Seq<char>>, checks: Seq<Seq<char>>)
    ensures
        ({
            let after = texts_entered(obligations, first_table::<String>(checks));
            &&& forall|t: Seq<char>| obligations.contains(t) ==> #[trigger] after.contains(t)
            &&& forall|k: int| 0 <= k < checks.len() ==> after.contains(#[trigger] checks[k])
        }),
{
    let required = first_table::<String>(checks);
    let after = texts_entered(obligations, required);
    texts_are_there(obligations, required);
    assert forall|k: int| 0 <= k < checks.len() implies after.contains(#[trigger] checks[k]) by {
        assert(checks.contains(checks[k]));
        table_holds_its_keys::<String>(checks, checks[k]);
        let j = choose|j: int|
            0 <= j < required.len() && String::key(#[trigger] required[j]) == String::key(checks[k]);
        assert(required[j] == checks[k]);
    }
}

proof fn one_check(check: Seq<char>)
    ensures
        first_table::<String>(seq![check]) == seq![check],
{
    assert(seq![check].drop_last() =~= Seq::empty());
    assert(first_table::<String>(Seq::empty()) =~= Seq::empty());
    assert(entered::<String>(Seq::empty(), check) =~= seq![check]);
}

/// The boundary that is entered.
spec fn boundary_of(
    cx: FlowContext,
    code: Seq<char>,
    subject: Seq<char>,
    checks: Seq<Seq<char>>,
    support: Seq<FlowSupportRefModel>,
) -> FlowBoundaryModel {
    FlowBoundaryModel {
        boundary_id: boundary_id(cx.request.member_alias, code, subject, support),
        code,
        subject,
        required_checks: first_table::<String>(checks),
        support_refs: support,
    }
}

proof fn bounding_is_well(
    cx: FlowContext,
    st: FlowStateModel,
    code: Seq<char>,
    subject: Seq<char>,
    checks: Seq<Seq<char>>,
    support: Seq<FlowSupportRefModel>,
)
    requires
        grounded(cx, st),
        are_of_member(support, cx.request.member_alias),
        is_explained(cx, st.visited, boundary_of(cx, code, subject, checks, support)),
    ensures
        all_well(cx, st, with_boundary(cx, st, code, subject, checks, support)),
        match with_boundary(cx, st, code, subject, checks, support) {
            Ok(after) => {
                &&& has_key::<FlowBoundary>(
                    after.boundaries,
                    boundary_id(cx.request.member_alias, code, subject, support),
                )
                &&& forall|k: int|
                    0 <= k < checks.len() ==> after.obligations.contains(#[trigger] checks[k])
            },
            Err(_) => true,
        },
{
    if let Ok(after) = with_boundary(cx, st, code, subject, checks, support) {
        let b = boundary_of(cx, code, subject, checks, support);
        checks_are_there(st.obligations, checks);
        entered_keeps_records::<FlowBoundary>(st.boundaries, b);
        no_other_record_comes_in::<FlowBoundary>(st.boundaries, b);
        assert(FlowBoundary::key(b) == b.boundary_id);
        assert(after.boundaries == entered::<FlowBoundary>(st.boundaries, b));
        assert(grounded(cx, after)) by {
            reveal(is_grounded);
            let member = cx.request.member_alias;
            assert forall|i: int| 0 <= i < after.boundaries.len() implies ({
                let x = #[trigger] after.boundaries[i];
                &&& x.boundary_id == boundary_id(member, x.code, x.subject, x.support_refs)
                &&& are_of_member(x.support_refs, member)
                &&& is_explained(cx, after.visited, x)
            }) by {
                let x = after.boundaries[i];
                if x != b {
                    assert(st.boundaries.contains(x));
                    let j = choose|j: int| 0 <= j < st.boundaries.len() && st.boundaries[j] == x;
                    assert(st.boundaries[j] == x);
                }
            }
        }
        assert(grows(st, after)) by {
            reveal(grows);
        }
    }
}

/// The same, for a code that does not come from a fact.
proof fn own_code_is_well(
    cx: FlowContext,
    st: FlowStateModel,
    code: Seq<char>,
    subject: Seq<char>,
    check: Seq<char>,
    support: Seq<FlowSupportRefModel>,
)
    requires
        grounded(cx, st),
        are_of_member(support, cx.request.member_alias),
        is_own_code(code, check),
    ensures
        all_well(cx, st, with_boundary(cx, st, code, subject, seq![check], support)),
        match with_boundary(cx, st, code, subject, seq![check], support) {
            Ok(after) => has_key::<FlowBoundary>(
                after.boundaries,
                boundary_id(cx.request.member_alias, code, subject, support),
            ),
            Err(_) => true,
        },
{
    one_check(check);
    let b = boundary_of(cx, code, subject, seq![check], support);
    assert(is_own_code(b.code, check) && b.required_checks == seq![check]);
    bounding_is_well(cx, st, code, subject, seq![check], support);
}

proof fn cutting_is_well(cx: FlowContext, st: FlowStateModel)
    requires
        grounded(cx, st),
    ensures
        grounded(cx, cut(st)),
        grows(st, cut(st)),
{
    reveal(is_grounded);
    reveal(grows);
}

proof fn more_visited(cx: FlowContext, visited: Seq<Seq<char>>, more: Seq<Seq<char>>)
    requires
        forall|t: Seq<char>| visited.contains(t) ==> #[trigger] more.contains(t),
    ensures
        forall|b: FlowBoundaryModel| #[trigger]
            is_explained(cx, visited, b) ==> is_explained(cx, more, b),
        forall|e: FlowEdgeModel| #[trigger] has_come_to(cx, visited, e) ==> has_come_to(cx, more, e),
{
    assert forall|b: FlowBoundaryModel| #[trigger] is_explained(cx, visited, b) implies is_explained(
        cx,
        more,
        b,
    ) by {
        if !(exists|check: Seq<char>| #[trigger]
            is_own_code(b.code, check) && b.required_checks == seq![check]) {
            let k = choose|k: int|
                0 <= k < cx.facts.len() && stems_from(b, #[trigger] cx.facts[k]) && is_relevant(
                    cx,
                    visited,
                    cx.facts[k],
                );
            assert(is_relevant(cx, more, cx.facts[k]));
        }
    }
    assert forall|e: FlowEdgeModel| #[trigger] has_come_to(cx, visited, e) implies has_come_to(
        cx,
        more,
        e,
    ) by {
        if e.relationship_authority
            == RelationshipAuthority::VerifiedSameSnapshotCompilationDependency {
            let (k, symbol) = choose|k: int, symbol: Seq<char>|
                #![trigger resolves_to(cx.facts[k], symbol)]
                0 <= k < cx.facts.len() && e.support_refs == rests_on(cx.facts[k]) && resolves_to(
                    cx.facts[k],
                    symbol,
                ) && visited.contains(symbol);
            assert(resolves_to(cx.facts[k], symbol) && more.contains(symbol));
        }
    }
}

/// Entering a node, an edge and a visited symbol.
proof fn following_is_well(
    cx: FlowContext,
    st: FlowStateModel,
    node: FlowNodeModel,
    edge: FlowEdgeModel,
    symbol: Seq<char>,
)
    requires
        grounded(cx, st),
        are_of_member(node.support_refs, cx.request.member_alias),
        are_of_member(edge.support_refs, cx.request.member_alias),
    ensures
        ({
            let nodes = entered::<FlowNode>(st.nodes, node);
            let edges = entered::<FlowEdge>(st.edges, edge);
            let visited = entered::<String>(st.visited, symbol);
            &&& is_grounded(cx, nodes, st.edges, st.boundaries, st.visited, true)
            &&& node.node_kind != FlowNodeKind::Callable ==> is_grounded(
                cx,
                nodes,
                st.edges,
                st.boundaries,
                st.visited,
                st.truncated,
            )
            &&& has_come_to(cx, st.visited, edge) ==> is_grounded(
                cx,
                st.nodes,
                edges,
                st.boundaries,
                st.visited,
                st.truncated,
            )
            &&& has_come_to(cx, visited, edge) && node.symbol_identity == symbol ==> is_grounded(
                cx,
                nodes,
                edges,
                st.boundaries,
                visited,
                st.truncated,
            )
            &&& visited.contains(symbol)
            &&& forall|e: FlowEdgeModel| st.edges.contains(e) ==> #[trigger] edges.contains(e)
            &&& forall|t: Seq<char>| st.visited.contains(t) ==> #[trigger] visited.contains(t)
            &&& has_key::<FlowEdge>(edges, edge.edge_id)
        }),
{
    reveal(is_grounded);
    let member = cx.request.member_alias;
    let nodes = entered::<FlowNode>(st.nodes, node);
    let edges = entered::<FlowEdge>(st.edges, edge);
    let visited = entered::<String>(st.visited, symbol);
    no_other_record_comes_in::<FlowNode>(st.nodes, node);
    no_other_record_comes_in::<FlowEdge>(st.edges, edge);
    entered_keeps_records::<FlowEdge>(st.edges, edge);
    entered_keeps_records::<String>(st.visited, symbol);
    let j = choose|j: int|
        0 <= j < visited.len() && String::key(#[trigger] visited[j]) == String::key(symbol);
    assert(visited[j] == symbol);
    more_visited(cx, st.visited, visited);
    assert forall|i: int| 0 <= i < nodes.len() implies #[trigger] nodes[i] == node || exists|k: int|
        0 <= k < st.nodes.len() && #[trigger] st.nodes[k] == nodes[i] by {}
    assert forall|i: int| 0 <= i < edges.len() implies #[trigger] edges[i] == edge || exists|k: int|
        0 <= k < st.edges.len() && #[trigger] st.edges[k] == edges[i] by {}
}

proof fn supports_of_member(cx: FlowContext, f: IndexedFactModel)
    requires
        f.fact.provenance().member_alias == cx.request.member_alias,
    ensures
        are_of_member(seq![support_of(f)], cx.request.member_alias),
        seq![support_of(f)] == rests_on(f),
{
    assert(seq![support_of(f)] =~= rests_on(f));
}

#[verifier::rlimit(30)]
proof fn handoff_is_well(
    cx: FlowContext,
    st: FlowStateModel,
    source: FlowSource,
    f: IndexedFactModel,
    row: UseFactModel,
)
    requires
        grounded(cx, st),
        f.fact == CallableFactModel::Use(row),
        row.provenance.member_alias == cx.request.member_alias,
        row.relationship_authority == RelationshipAuthority::DeclaredTopology,
    ensures
        all_well(cx, st, handoff_step(cx, st, source, f, row)),
{
    let support = seq![support_of(f)];
    let id = row.target_callable_id;
    supports_of_member(cx, f);
    own_code_is_well(
        cx,
        st,
        "AMBIGUOUS_DECLARED_TOPOLOGY_HANDOFF"@,
        id,
        "DISAMBIGUATE_DECLARED_COMPONENT_PAIR"@,
        support,
    );
    own_code_is_well(
        cx,
        st,
        "DECLARED_TOPOLOGY_DIRECTION_MISMATCH"@,
        id,
        "VERIFY_DECLARED_CONSUMER_PROVIDER_DIRECTION"@,
        support,
    );
    if let Some(target) = record_at::<CallableMemberBinding>(cx.members, cx.pair.provider_member) {
        if let Some(source_member) = record_at::<CallableMemberBinding>(
            cx.members,
            cx.request.member_alias,
        ) {
            let node = handoff_node(target, id, (source.depth + 1) as usize);
            let cut1 = cut(st);
            cutting_is_well(cx, st);
            own_code_is_well(
                cx,
                cut1,
                "FLOW_NODE_BUDGET_TRUNCATED"@,
                id,
                "SELECT_NARROWER_ROOT"@,
                support,
            );
            let st2 = FlowStateModel { nodes: entered::<FlowNode>(st.nodes, node), ..st };
            let edge = edge_of(
                source,
                source_member,
                node.node_id,
                target,
                f,
                row,
                handoff_edge_id(source.node_id, node.node_id, row.fact_id),
                (crate::thread_flow::FlowOrderAuthority::Unknown, None, Seq::empty()),
            );
            following_is_well(cx, st, node, edge, source.symbol);
            assert(grounded(cx, st2));
            assert(grows(st, st2)) by {
                reveal(grows);
            }
            let cut2 = cut(st2);
            cutting_is_well(cx, st2);
            grows_further(st, st2, cut2);
            own_code_is_well(
                cx,
                cut2,
                "FLOW_EDGE_BUDGET_TRUNCATED"@,
                source.symbol,
                "SELECT_NARROWER_ROOT"@,
                support,
            );
            let st3 = FlowStateModel { edges: entered::<FlowEdge>(st2.edges, edge), ..st2 };
            following_is_well(cx, st2, node, edge, source.symbol);
            assert(has_come_to(cx, st2.visited, edge));
            assert(grounded(cx, st3));
            assert(grows(st, st3)) by {
                reveal(grows);
            }
            own_code_is_well(
                cx,
                st3,
                "DECLARED_TOPOLOGY_HANDOFF"@,
                id,
                "VERIFY_RUNTIME_COMPONENT_HANDOFF"@,
                support,
            );
            if let Ok(after) = with_boundary(
                cx,
                cut1,
                "FLOW_NODE_BUDGET_TRUNCATED"@,
                id,
                seq!["SELECT_NARROWER_ROOT"@],
                support,
            ) {
                grows_further(st, cut1, after);
            }
            if let Ok(after) = with_boundary(
                cx,
                cut2,
                "FLOW_EDGE_BUDGET_TRUNCATED"@,
                source.symbol,
                seq!["SELECT_NARROWER_ROOT"@],
                support,
            ) {
                grows_further(st, cut2, after);
            }
            if let Ok(after) = with_boundary(
                cx,
                st3,
                "DECLARED_TOPOLOGY_HANDOFF"@,
                id,
                seq!["VERIFY_RUNTIME_COMPONENT_HANDOFF"@],
                support,
            ) {
                grows_further(st, st3, after);
            }
        }
    }
}

#[verifier::rlimit(40)]
proof fn callable_is_well(
    cx: FlowContext,
    st: FlowStateModel,
    source: FlowSource,
    f: IndexedFactModel,
    row: UseFactModel,
    symbol: Seq<char>,
    target: IndexedFactModel,
)
    requires
        grounded(cx, st),
        cx.facts.contains(f),
        f.fact == CallableFactModel::Use(row),
        row.provenance.member_alias == cx.request.member_alias,
        exact_target(row) == Some(symbol),
        declares(target, cx.request.member_alias, symbol),
    ensures
        all_well(cx, st, callable_step(cx, st, source, f, row, symbol, target)),
{
    let support = seq![support_of(f)];
    let depth = (source.depth + 1) as usize;
    supports_of_member(cx, f);
    supports_of_member(cx, target);
    if let Ok(node) = node_of(cx, target, depth) {
        let cut1 = cut(st);
        cutting_is_well(cx, st);
        own_code_is_well(
            cx,
            cut1,
            "FLOW_NODE_BUDGET_TRUNCATED"@,
            symbol,
            "SELECT_NARROWER_ROOT"@,
            support,
        );
        if let Ok(after) = with_boundary(
            cx,
            cut1,
            "FLOW_NODE_BUDGET_TRUNCATED"@,
            symbol,
            seq!["SELECT_NARROWER_ROOT"@],
            support,
        ) {
            grows_further(st, cut1, after);
        }
        let st2 = FlowStateModel { nodes: entered::<FlowNode>(st.nodes, node), ..st };
        let cut2 = cut(st2);
        if let Some(member) = record_at::<CallableMemberBinding>(
            cx.members,
            cx.request.member_alias,
        ) {
            let edge = edge_of(
                source,
                member,
                node.node_id,
                member,
                f,
                row,
                edge_id_of(source.node_id, node.node_id, row.fact_id),
                order_of(cx, source, row),
            );
            following_is_well(cx, st, node, edge, symbol);
            assert(grounded(cx, cut2));
            assert(grows(st, cut2)) by {
                reveal(grows);
            }
            own_code_is_well(
                cx,
                cut2,
                "FLOW_EDGE_BUDGET_TRUNCATED"@,
                source.symbol,
                "SELECT_NARROWER_ROOT"@,
                support,
            );
            if let Ok(after) = with_boundary(
                cx,
                cut2,
                "FLOW_EDGE_BUDGET_TRUNCATED"@,
                source.symbol,
                seq!["SELECT_NARROWER_ROOT"@],
                support,
            ) {
                grows_further(st, cut2, after);
            }
            // The boundary of the order, entered before the node, gives the same state.
            own_code_is_well(
                cx,
                st,
                "VERIFY_CONTROL_FLOW_ORDER"@,
                source.symbol,
                "VERIFY_CONTROL_FLOW_ORDER"@,
                support,
            );
            let bounded = with_boundary(
                cx,
                st,
                "VERIFY_CONTROL_FLOW_ORDER"@,
                source.symbol,
                seq!["VERIFY_CONTROL_FLOW_ORDER"@],
                support,
            );
            let st0 = if order_is_open(cx, source, row) && bounded is Ok {
                bounded->Ok_0
            } else {
                st
            };
            grows_at_all(st);
            assert(grounded(cx, st0) && grows(st, st0));
            following_is_well(cx, st0, node, edge, symbol);
            let visited = entered::<String>(st0.visited, symbol);
            assert(has_come_to(cx, visited, edge)) by {
                let k = choose|k: int| 0 <= k < cx.facts.len() && cx.facts[k] == f;
                assert(resolves_to(cx.facts[k], symbol) && visited.contains(symbol));
            }
            if has_key::<String>(st0.visited, symbol) {
                let k = choose|k: int|
                    0 <= k < st0.visited.len() && String::key(#[trigger] st0.visited[k]) == symbol;
                assert(st0.visited.contains(symbol));
                already_visited(cx, st0, node, edge, symbol);
            }
            let r = callable_step(cx, st, source, f, row, symbol, target);
            if let Ok(after) = r {
                if !(!has_key::<FlowNode>(st.nodes, node.node_id) && st.nodes.len()
                    >= cx.request.budgets.max_nodes) && st2.edges.len()
                    < cx.request.budgets.max_edges {
                    assert(after.nodes == entered::<FlowNode>(st0.nodes, node));
                    assert(after.edges == entered::<FlowEdge>(st0.edges, edge));
                    assert(after.boundaries == st0.boundaries);
                    assert(after.truncated == st0.truncated);
                    assert(grounded(cx, after));
                    assert(grows(st0, after)) by {
                        reveal(grows);
                    }
                    grows_further(st, st0, after);
                }
            }
        } else {
            cut_node_is_well(cx, st, node);
            assert(grounded(cx, cut2));
            assert(grows(st, cut2)) by {
                reveal(grows);
            }
            own_code_is_well(
                cx,
                cut2,
                "FLOW_EDGE_BUDGET_TRUNCATED"@,
                source.symbol,
                "SELECT_NARROWER_ROOT"@,
                support,
            );
            if let Ok(after) = with_boundary(
                cx,
                cut2,
                "FLOW_EDGE_BUDGET_TRUNCATED"@,
                source.symbol,
                seq!["SELECT_NARROWER_ROOT"@],
                support,
            ) {
                grows_further(st, cut2, after);
            }
        }
    }
}

proof fn cut_node_is_well(cx: FlowContext, st: FlowStateModel, node: FlowNodeModel)
    requires
        grounded(cx, st),
        are_of_member(node.support_refs, cx.request.member_alias),
    ensures
        is_grounded(
            cx,
            entered::<FlowNode>(st.nodes, node),
            st.edges,
            st.boundaries,
            st.visited,
            true,
        ),
{
    reveal(is_grounded);
    no_other_record_comes_in::<FlowNode>(st.nodes, node);
    let nodes = entered::<FlowNode>(st.nodes, node);
    assert forall|i: int| 0 <= i < nodes.len() implies #[trigger] nodes[i] == node || exists|k: int|
        0 <= k < st.nodes.len() && #[trigger] st.nodes[k] == nodes[i] by {}
}

proof fn already_visited(
    cx: FlowContext,
    st: FlowStateModel,
    node: FlowNodeModel,
    edge: FlowEdgeModel,
    symbol: Seq<char>,
)
    requires
        grounded(cx, st),
        are_of_member(node.support_refs, cx.request.member_alias),
        are_of_member(edge.support_refs, cx.request.member_alias),
        st.visited.contains(symbol),
        node.symbol_identity == symbol,
        has_come_to(cx, entered::<String>(st.visited, symbol), edge),
    ensures
        is_grounded(
            cx,
            entered::<FlowNode>(st.nodes, node),
            entered::<FlowEdge>(st.edges, edge),
            st.boundaries,
            st.visited,
            st.truncated,
        ),
{
    reveal(is_grounded);
    let nodes = entered::<FlowNode>(st.nodes, node);
    let edges = entered::<FlowEdge>(st.edges, edge);
    let visited = entered::<String>(st.visited, symbol);
    no_other_record_comes_in::<FlowNode>(st.nodes, node);
    no_other_record_comes_in::<FlowEdge>(st.edges, edge);
    no_other_record_comes_in::<String>(st.visited, symbol);
    assert forall|t: Seq<char>| visited.contains(t) implies #[trigger] st.visited.contains(t) by {
        let j = choose|j: int| 0 <= j < visited.len() && visited[j] == t;
        assert(visited[j] == t);
    }
    more_visited(cx, visited, st.visited);
    assert forall|i: int| 0 <= i < nodes.len() implies #[trigger] nodes[i] == node || exists|k: int|
        0 <= k < st.nodes.len() && #[trigger] st.nodes[k] == nodes[i] by {}
    assert forall|i: int| 0 <= i < edges.len() implies #[trigger] edges[i] == edge || exists|k: int|
        0 <= k < st.edges.len() && #[trigger] st.edges[k] == edges[i] by {}
}

#[verifier::rlimit(40)]
/// Following a use keeps a state grounded.
pub proof fn use_is_well(cx: FlowContext, st: FlowStateModel, source: FlowSource, f: IndexedFactModel)
    requires
        grounded(cx, st),
        cx.facts.contains(f),
        f.fact is Use ==> f.fact->Use_0.provenance.member_alias == cx.request.member_alias,
    ensures
        all_well(cx, st, use_step(cx, st, source, f)),
{
    reveal(use_step);
    grows_at_all(st);
    if let CallableFactModel::Use(row) = f.fact {
        let support = seq![support_of(f)];
        supports_of_member(cx, f);
        own_code_is_well(
            cx,
            st,
            "TARGET_OUTSIDE_SELECTED_PAIR"@,
            target_subject(row),
            "SELECT_PAIR_CONTAINING_TARGET_MEMBER"@,
            support,
        );
        own_code_is_well(
            cx,
            st,
            "UNSUPPORTED_EXACT_PAIR_DEPENDENCY"@,
            target_subject(row),
            "VERIFY_PAIR_DEPENDENCY_OUTSIDE_V1"@,
            support,
        );
        own_code_is_well(
            cx,
            st,
            "UNBOUND_COMPONENT_TARGET"@,
            row.target_callable_id,
            "BIND_TARGET_TO_SELECTED_PAIR"@,
            support,
        );
        own_code_is_well(
            cx,
            st,
            "UNRESOLVED_TARGET"@,
            row.target_callable_id,
            "RESOLVE_EXACT_FULL_SYMBOL"@,
            support,
        );
        if row.relationship_authority == RelationshipAuthority::DeclaredTopology {
            handoff_is_well(cx, st, source, f, row);
        }
        if let Some(symbol) = exact_target(row) {
            own_code_is_well(
                cx,
                st,
                "MISSING_TARGET_DECLARATION"@,
                symbol,
                "VERIFY_TARGET_DECLARATION_IN_RETAINED_FACT_SET"@,
                support,
            );
            own_code_is_well(
                cx,
                st,
                "AMBIGUOUS_TARGET_DECLARATION"@,
                symbol,
                "DISAMBIGUATE_TARGET_FULL_SYMBOL"@,
                support,
            );
            let targets = declarations_of(cx.facts, cx.request.member_alias, symbol);
            if targets.len() == 1 {
                declared_is_declared(cx, symbol);
                callable_is_well(cx, st, source, f, row, symbol, targets[0]);
            }
        }
    }
}

/// The declarations of a symbol are facts that declare it.
pub proof fn declared_is_declared(cx: FlowContext, symbol: Seq<char>)
    ensures
        forall|i: int|
            0 <= i < declarations_of(cx.facts, cx.request.member_alias, symbol).len() ==> declares(
                #[trigger] declarations_of(cx.facts, cx.request.member_alias, symbol)[i],
                cx.request.member_alias,
                symbol,
            ) && cx.facts.contains(declarations_of(cx.facts, cx.request.member_alias, symbol)[i]),
{
    broadcast use vstd::seq_lib::group_filter_ensures;

    let member = cx.request.member_alias;
    let pred = |f: IndexedFactModel| declares(f, member, symbol);
    let found = declarations_of(cx.facts, member, symbol);
    assert forall|i: int| 0 <= i < found.len() implies declares(#[trigger] found[i], member, symbol)
        && cx.facts.contains(found[i]) by {
        cx.facts.lemma_filter_pred(pred, i);
        cx.facts.lemma_filter_contains_rev(pred, found[i]);
    }
}

/// The uses of a callable are facts that are uses by it.
pub proof fn outgoing_are_uses(cx: FlowContext, callable_id: Seq<char>)
    ensures
        forall|i: int|
            0 <= i < outgoing_of(cx.facts, cx.request.member_alias, callable_id).len()
                ==> cx.facts.contains(
                #[trigger] outgoing_of(cx.facts, cx.request.member_alias, callable_id)[i],
            ) && is_use_by(
                outgoing_of(cx.facts, cx.request.member_alias, callable_id)[i],
                cx.request.member_alias,
                callable_id,
            ),
{
    let member = cx.request.member_alias;
    let p = |f: IndexedFactModel| is_use_by(f, member, callable_id) && is_declared_use(f);
    let q = |f: IndexedFactModel| is_use_by(f, member, callable_id) && !is_declared_use(f);
    let a = cx.facts.filter(p);
    let b = cx.facts.filter(q);
    let all = outgoing_of(cx.facts, member, callable_id);
    assert(all == a + b);
    assert forall|i: int| 0 <= i < all.len() implies cx.facts.contains(#[trigger] all[i])
        && is_use_by(all[i], member, callable_id) by {
        if i < a.len() {
            cx.facts.lemma_filter_pred(p, i);
            assert(all[i] == a[i]);
            cx.facts.lemma_filter_contains_rev(p, a[i]);
        } else {
            let k = i - a.len();
            cx.facts.lemma_filter_pred(q, k);
            assert(all[i] == b[k]);
            cx.facts.lemma_filter_contains_rev(q, b[k]);
        }
    }
}

/// Following uses keeps a state grounded.
pub proof fn uses_are_well(
    cx: FlowContext,
    st: FlowStateModel,
    source: FlowSource,
    uses: Seq<IndexedFactModel>,
    i: int,
)
    requires
        grounded(cx, st),
        forall|k: int|
            0 <= k < uses.len() ==> cx.facts.contains(#[trigger] uses[k]) && (uses[k].fact is Use
                ==> uses[k].fact->Use_0.provenance.member_alias == cx.request.member_alias),
    ensures
        all_well(cx, st, uses_step(cx, st, source, uses, i)),
    decreases uses.len() - i,
{
    grows_at_all(st);
    if 0 <= i < uses.len() {
        assert(cx.facts.contains(uses[i]));
        use_is_well(cx, st, source, uses[i]);
        if let Ok(st2) = use_step(cx, st, source, uses[i]) {
            uses_are_well(cx, st2, source, uses, i + 1);
            if let Ok(after) = uses_step(cx, st2, source, uses, i + 1) {
                grows_further(st, st2, after);
            }
        }
    }
}

/// Following a callable keeps a state grounded.
pub proof fn symbol_is_well(cx: FlowContext, st: FlowStateModel, symbol: Seq<char>, depth: usize)
    requires
        grounded(cx, st),
    ensures
        all_well(cx, st, symbol_step(cx, st, symbol, depth)),
{
    let member = cx.request.member_alias;
    let declared = declarations_of(cx.facts, member, symbol);
    if node_for(st.nodes, member, symbol) is Some && declared.len() > 0 {
        let node_id = node_for(st.nodes, member, symbol)->0;
        let support = seq![support_of(declared[0])];
        declared_is_declared(cx, symbol);
        supports_of_member(cx, declared[0]);
        own_code_is_well(
            cx,
            st,
            "MISSING_SOURCE_CALLABLE_ID"@,
            symbol,
            "VERIFY_EXACT_SOURCE_CALLABLE_ID"@,
            support,
        );
        if let Some(callable_id) = declared[0].fact->Declaration_0.compiler_callable_id {
            own_code_is_well(
                cx,
                st,
                "AMBIGUOUS_SOURCE_OWNER_OVERLOAD"@,
                callable_id,
                "DISAMBIGUATE_RELATION_SOURCE_OVERLOAD"@,
                support,
            );
            cutting_is_well(cx, st);
            own_code_is_well(
                cx,
                cut(st),
                "FLOW_DEPTH_TRUNCATED"@,
                symbol,
                "INCREASE_MAX_DEPTH_OR_SELECT_NARROWER_ROOT"@,
                Seq::empty(),
            );
            if let Ok(after) = with_boundary(
                cx,
                cut(st),
                "FLOW_DEPTH_TRUNCATED"@,
                symbol,
                seq!["INCREASE_MAX_DEPTH_OR_SELECT_NARROWER_ROOT"@],
                Seq::empty(),
            ) {
                grows_further(st, cut(st), after);
            }
            outgoing_are_uses(cx, callable_id);
            let outgoing = outgoing_of(cx.facts, member, callable_id);
            uses_are_well(cx, st, FlowSource { symbol, depth, node_id }, outgoing, 0);
        }
    }
}

/// The traversal keeps a state grounded.
pub proof fn traversal_is_well(cx: FlowContext, st: FlowStateModel, n: nat)
    requires
        grounded(cx, st),
    ensures
        all_well(cx, st, traversed(cx, st, n)),
    decreases n,
{
    grows_at_all(st);
    if n > 0 && st.queue.len() > 0 {
        let next = st.queue[0];
        let rest = FlowStateModel { queue: st.queue.drop_first(), ..st };
        assert(grows(st, rest)) by {
            reveal(grows);
        }
        symbol_is_well(cx, rest, next.symbol, next.depth);
        if let Ok(st2) = symbol_step(cx, rest, next.symbol, next.depth) {
            traversal_is_well(cx, st2, (n - 1) as nat);
            if let Ok(after) = traversed(cx, st2, (n - 1) as nat) {
                grows_further(st, rest, st2);
                grows_further(st, st2, after);
            }
        }
    }
}

proof fn anchoring_is_well(
    cx: FlowContext,
    st: FlowStateModel,
    subject: Seq<char>,
    supports: Seq<FlowSupportRefModel>,
    i: int,
)
    requires
        grounded(cx, st),
        are_of_member(supports, cx.request.member_alias),
    ensures
        all_well(cx, st, supports_anchored(cx, st, subject, supports, i)),
    decreases supports.len() - i,
{
    grows_at_all(st);
    if 0 <= i < supports.len() {
        if supports[i].source is Some {
            anchoring_is_well(cx, st, subject, supports, i + 1);
        } else {
            own_code_is_well(
                cx,
                st,
                "MISSING_SOURCE_ANCHOR"@,
                subject,
                "VERIFY_EXACT_SOURCE_ANCHOR"@,
                seq![supports[i]],
            );
            if let Ok(st2) = with_boundary(
                cx,
                st,
                "MISSING_SOURCE_ANCHOR"@,
                subject,
                seq!["VERIFY_EXACT_SOURCE_ANCHOR"@],
                seq![supports[i]],
            ) {
                anchoring_is_well(cx, st2, subject, supports, i + 1);
                if let Ok(after) = supports_anchored(cx, st2, subject, supports, i + 1) {
                    grows_further(st, st2, after);
                }
            }
        }
    }
}

proof fn anchoring_nodes_is_well(
    cx: FlowContext,
    st: FlowStateModel,
    nodes: Seq<FlowNodeModel>,
    i: int,
)
    requires
        grounded(cx, st),
        forall|k: int|
            0 <= k < nodes.len() ==> are_of_member(
                (#[trigger] nodes[k]).support_refs,
                cx.request.member_alias,
            ),
    ensures
        all_well(cx, st, nodes_anchored(cx, st, nodes, i)),
    decreases nodes.len() - i,
{
    grows_at_all(st);
    if 0 <= i < nodes.len() {
        let (subject, supports) = (nodes[i].symbol_identity, nodes[i].support_refs);
        anchoring_is_well(cx, st, subject, supports, 0);
        if let Ok(st2) = supports_anchored(cx, st, subject, supports, 0) {
            anchoring_nodes_is_well(cx, st2, nodes, i + 1);
            if let Ok(after) = nodes_anchored(cx, st2, nodes, i + 1) {
                grows_further(st, st2, after);
            }
        }
    }
}

proof fn anchoring_edges_is_well(
    cx: FlowContext,
    st: FlowStateModel,
    edges: Seq<FlowEdgeModel>,
    i: int,
)
    requires
        grounded(cx, st),
        forall|k: int|
            0 <= k < edges.len() ==> are_of_member(
                (#[trigger] edges[k]).support_refs,
                cx.request.member_alias,
            ),
    ensures
        all_well(cx, st, edges_anchored(cx, st, edges, i)),
    decreases edges.len() - i,
{
    grows_at_all(st);
    if 0 <= i < edges.len() {
        let (subject, supports) = (edges[i].source_node_id, edges[i].support_refs);
        anchoring_is_well(cx, st, subject, supports, 0);
        if let Ok(st2) = supports_anchored(cx, st, subject, supports, 0) {
            anchoring_edges_is_well(cx, st2, edges, i + 1);
            if let Ok(after) = edges_anchored(cx, st2, edges, i + 1) {
                grows_further(st, st2, after);
            }
        }
    }
}

/// Whether a state shows a boundary fact.
pub open spec fn is_told(cx: FlowContext, st: FlowStateModel, f: IndexedFactModel) -> bool {
    let row = f.fact->Boundary_0;
    &&& has_key::<FlowBoundary>(
        st.boundaries,
        boundary_id(cx.request.member_alias, row.code, row.subject->0, rests_on(f)),
    )
    &&& forall|k: int|
        0 <= k < row.required_checks.len() ==> st.obligations.contains(
            #[trigger] row.required_checks[k],
        )
}

proof fn told_stays(cx: FlowContext, st: FlowStateModel, after: FlowStateModel, f: IndexedFactModel)
    requires
        is_told(cx, st, f),
        grows(st, after),
    ensures
        is_told(cx, after, f),
{
    reveal(grows);
    let row = f.fact->Boundary_0;
    let id = boundary_id(cx.request.member_alias, row.code, row.subject->0, rests_on(f));
    let k = choose|k: int|
        0 <= k < st.boundaries.len() && FlowBoundary::key(#[trigger] st.boundaries[k]) == id;
    assert(st.boundaries.contains(st.boundaries[k]));
    assert(after.boundaries.contains(st.boundaries[k]));
    let j = choose|j: int|
        0 <= j < after.boundaries.len() && after.boundaries[j] == st.boundaries[k];
    assert(FlowBoundary::key(after.boundaries[j]) == id);
}

proof fn facts_are_told(cx: FlowContext, st: FlowStateModel, i: int)
    requires
        grounded(cx, st),
        0 <= i,
        cx.request.member_alias == cx.pair.provider_member || cx.request.member_alias
            == cx.pair.consumer_member,
    ensures
        all_well(cx, st, facts_bounded(cx, st, i)),
        match facts_bounded(cx, st, i) {
            Ok(after) => after.visited == st.visited && forall|k: int|
                i <= k < cx.facts.len() && is_relevant(cx, st.visited, #[trigger] cx.facts[k])
                    ==> is_told(cx, after, cx.facts[k]),
            Err(_) => true,
        },
    decreases cx.facts.len() - i,
{
    grows_at_all(st);
    if i < cx.facts.len() {
        let f = cx.facts[i];
        assert(is_relevant(cx, st.visited, f) == is_relevant_boundary(cx, st, f)) by {
            if let CallableFactModel::Boundary(row) = f.fact {
                if row.subject is Some {
                    visited_has_key(st.visited, row.subject->0);
                }
            }
        }
        if !is_relevant(cx, st.visited, f) {
            facts_are_told(cx, st, i + 1);
        } else {
            let row = f.fact->Boundary_0;
            let subject = row.subject->0;
            supports_of_member(cx, f);
            let b = boundary_of(cx, row.code, subject, row.required_checks, seq![support_of(f)]);
            assert(stems_from(b, cx.facts[i]));
            bounding_is_well(cx, st, row.code, subject, row.required_checks, seq![support_of(f)]);
            if let Ok(st2) = with_boundary(
                cx,
                st,
                row.code,
                subject,
                row.required_checks,
                seq![support_of(f)],
            ) {
                facts_are_told(cx, st2, i + 1);
                if let Ok(after) = facts_bounded(cx, st2, i + 1) {
                    grows_further(st, st2, after);
                    assert(is_told(cx, st2, f));
                    told_stays(cx, st2, after, f);
                }
            }
        }
    }
}

/// A symbol that was come to is found.
pub proof fn visited_has_key(visited: Seq<Seq<char>>, symbol: Seq<char>)
    ensures
        has_key::<String>(visited, symbol) == visited.contains(symbol),
{
    if has_key::<String>(visited, symbol) {
        let k = choose|k: int| 0 <= k < visited.len() && String::key(#[trigger] visited[k]) == symbol;
        assert(visited[k] == symbol);
    }
    if visited.contains(symbol) {
        let k = choose|k: int| 0 <= k < visited.len() && visited[k] == symbol;
        assert(String::key(visited[k]) == symbol);
    }
}

proof fn regions_are_well(
    cx: FlowContext,
    catalog: Map<(Seq<char>, Seq<char>), PreparedLocalCfgModel>,
    st: FlowStateModel,
    regions: Seq<FlowControlRegionModel>,
    symbols: Seq<Seq<char>>,
    i: int,
)
    requires
        grounded(cx, st),
    ensures
        match regions_built(cx, catalog, st, regions, symbols, i) {
            Ok(done) => all_well(cx, st, Ok(done.0)),
            Err(_) => true,
        },
    decreases symbols.len() - i,
{
    grows_at_all(st);
    if 0 <= i < symbols.len() {
        own_code_is_well(
            cx,
            st,
            "VERIFY_CONTROL_FLOW_ORDER"@,
            symbols[i],
            "VERIFY_CONTROL_FLOW_ORDER"@,
            Seq::empty(),
        );
        if let Ok((st2, regions2)) = region_step(cx, catalog, st, regions, symbols[i]) {
            regions_are_well(cx, catalog, st2, regions2, symbols, i + 1);
            if let Ok((after, all)) = regions_built(cx, catalog, st2, regions2, symbols, i + 1) {
                grows_further(st, st2, after);
            }
        }
    }
}

proof fn facts_of_shards_are_facts(shards: Seq<PreparedFactShardModel>, n: nat, f: IndexedFactModel)
    requires
        n <= shards.len(),
        facts_of_shards(shards, n) is Ok,
    ensures
        facts_of_shards(shards, n)->Ok_0.contains(f) <==> exists|i: int, j: int|
            #![trigger shards[i].shard->0.facts[j]]
            0 <= i < n && shards[i].reference == f.shard_ref && shards[i].shard is Some && 0 <= j
                < shards[i].shard->0.facts.len() && shards[i].shard->0.facts[j] == f.fact,
    decreases n,
{
    let all = facts_of_shards(shards, n)->Ok_0;
    if n > 0 {
        let before = facts_of_shards(shards, (n - 1) as nat)->Ok_0;
        let last = facts_of_shard(shards[n - 1])->Ok_0;
        facts_of_shards_are_facts(shards, (n - 1) as nat, f);
        assert(all == before + last);
        let rows = shards[n - 1].shard->0.facts;
        if all.contains(f) {
            let k = choose|k: int| 0 <= k < all.len() && all[k] == f;
            if k < before.len() {
                assert(before[k] == f);
            } else {
                assert(last[k - before.len()] == f);
                assert(shards[n - 1].shard->0.facts[k - before.len()] == f.fact);
            }
        }
        if before.contains(f) {
            let k = choose|k: int| 0 <= k < before.len() && before[k] == f;
            assert(all[k] == f);
        }
        assert forall|i: int, j: int|
            #![trigger shards[i].shard->0.facts[j]]
            0 <= i < n && shards[i].reference == f.shard_ref && shards[i].shard is Some && 0 <= j
                < shards[i].shard->0.facts.len() && shards[i].shard->0.facts[j]
                == f.fact implies all.contains(f) by {
            if i == n - 1 {
                assert(last[j] == f);
                assert(all[before.len() + j] == f);
            }
        }
    }
}

/// The facts that are read are those of the set.
pub proof fn facts_are_of_set(set: PreparedCallableFactSetModel, f: IndexedFactModel)
    requires
        facts_read(set) is Ok,
    ensures
        facts_read(set)->Ok_0.contains(f) == has_fact(set, f),
{
    broadcast use vstd::seq_lib::group_to_multiset_ensures;

    let n = set.fact_shards.len();
    let facts = facts_of_shards(set.fact_shards, n)->Ok_0;
    facts_of_shards_are_facts(set.fact_shards, n, f);
    sorted_is_sorted::<IndexedFact>(facts);
    let read = sorted::<IndexedFact>(facts);
    assert(read.contains(f) == facts.contains(f)) by {
        assert(read.to_multiset().count(f) == facts.to_multiset().count(f));
    }
    if facts.contains(f) {
        let (i, j) = choose|i: int, j: int|
            #![trigger set.fact_shards[i].shard->0.facts[j]]
            0 <= i < n && set.fact_shards[i].reference == f.shard_ref && set.fact_shards[i].shard
                is Some && 0 <= j < set.fact_shards[i].shard->0.facts.len()
                && set.fact_shards[i].shard->0.facts[j] == f.fact;
        assert(is_fact_at(set, f, i, j));
    }
    if has_fact(set, f) {
        let (i, j) = choose|i: int, j: int| #[trigger] is_fact_at(set, f, i, j);
        assert(set.fact_shards[i].shard->0.facts[j] == f.fact);
    }
}

/// Boundaries with the same identity have the same digest.
pub proof fn identities_are_digests(
    member: Seq<char>,
    code: Seq<char>,
    subject: Seq<char>,
    support: Seq<FlowSupportRefModel>,
    code2: Seq<char>,
    subject2: Seq<char>,
    support2: Seq<FlowSupportRefModel>,
)
    requires
        boundary_id(member, code, subject, support) == boundary_id(
            member,
            code2,
            subject2,
            support2,
        ),
    ensures
        digest_of_boundary(member, code, subject, support) == digest_of_boundary(
            member,
            code2,
            subject2,
            support2,
        ),
{
    let x = digest_of_boundary(member, code, subject, support);
    let y = digest_of_boundary(member, code2, subject2, support2);
    let head = "flow-boundary"@ + ":"@;
    let p = "sha256:"@;
    let a = after_prefix(x, p);
    let b = after_prefix(y, p);
    let u = boundary_id(member, code, subject, support);
    let v = boundary_id(member, code2, subject2, support2);
    assert(u == head + a && v == head + b);
    assert(a =~= u.skip(head.len() as int));
    assert(b =~= v.skip(head.len() as int));
    assert(x =~= p + a);
    assert(y =~= p + b);
}

/// What holds of the last state of a slice.
pub open spec fn follows_from(
    cx: FlowContext,
    st: FlowStateModel,
    done: FlowStateModel,
) -> bool {
    &&& grounded(cx, done)
    &&& grows(st, done)
    &&& forall|k: int|
        0 <= k < cx.facts.len() && is_relevant(cx, done.visited, #[trigger] cx.facts[k])
            ==> is_told(cx, done, cx.facts[k])
}

/// What comes after the traversal keeps a state grounded.
pub proof fn completion_is_well(cx: FlowContext, st: FlowStateModel)
    requires
        grounded(cx, st),
        cx.request.member_alias == cx.pair.provider_member || cx.request.member_alias
            == cx.pair.consumer_member,
    ensures
        match completed(cx, st) {
            Ok(done) => follows_from(cx, st, done.0),
            Err(_) => true,
        },
{
    if completed(cx, st) is Ok {
        let done = completed(cx, st)->Ok_0.0;
        let st1 = traversed(cx, st, cx.facts.len())->Ok_0;
        let st2 = nodes_anchored(cx, st1, st1.nodes, 0)->Ok_0;
        let st3 = edges_anchored(cx, st2, st2.edges, 0)->Ok_0;
        let st4 = facts_bounded(cx, st3, 0)->Ok_0;
        traversal_is_well(cx, st, cx.facts.len());
        assert(forall|k: int|
            0 <= k < st1.nodes.len() ==> are_of_member(
                (#[trigger] st1.nodes[k]).support_refs,
                cx.request.member_alias,
            )) by {
            reveal(is_grounded);
        }
        anchoring_nodes_is_well(cx, st1, st1.nodes, 0);
        assert(forall|k: int|
            0 <= k < st2.edges.len() ==> are_of_member(
                (#[trigger] st2.edges[k]).support_refs,
                cx.request.member_alias,
            )) by {
            reveal(is_grounded);
        }
        anchoring_edges_is_well(cx, st2, st2.edges, 0);
        facts_are_told(cx, st3, 0);
        grows_further(st, st1, st2);
        grows_further(st, st2, st3);
        grows_further(st, st3, st4);
        crate::thread_flow_depth::bounding_keeps_flow(cx, st1, st2, st3, st4);
        if let Some(catalog) = cx.cfg {
            regions_are_well(cx, catalog, st4, Seq::empty(), st4.visited, 0);
            crate::thread_flow_depth::regions_keep_flow(
                cx,
                catalog,
                st4,
                Seq::empty(),
                st4.visited,
                0,
            );
            grows_further(st, st4, done);
            assert forall|k: int|
                0 <= k < cx.facts.len() && is_relevant(
                    cx,
                    done.visited,
                    #[trigger] cx.facts[k],
                ) implies is_told(cx, done, cx.facts[k]) by {
                told_stays(cx, st4, done, cx.facts[k]);
            }
        }
    }
}

/// What comes after the traversal keeps all that the traversal has found.
pub proof fn completion_grows(cx: FlowContext, st: FlowStateModel)
    requires
        grounded(cx, st),
        completed(cx, st) is Ok,
        cx.request.member_alias == cx.pair.provider_member || cx.request.member_alias
            == cx.pair.consumer_member,
    ensures
        grows(traversed(cx, st, cx.facts.len())->Ok_0, completed(cx, st)->Ok_0.0),
{
    let done = completed(cx, st)->Ok_0.0;
    let st1 = traversed(cx, st, cx.facts.len())->Ok_0;
    let st2 = nodes_anchored(cx, st1, st1.nodes, 0)->Ok_0;
    let st3 = edges_anchored(cx, st2, st2.edges, 0)->Ok_0;
    let st4 = facts_bounded(cx, st3, 0)->Ok_0;
    traversal_is_well(cx, st, cx.facts.len());
    assert(forall|k: int|
        0 <= k < st1.nodes.len() ==> are_of_member(
            (#[trigger] st1.nodes[k]).support_refs,
            cx.request.member_alias,
        )) by {
        reveal(is_grounded);
    }
    anchoring_nodes_is_well(cx, st1, st1.nodes, 0);
    assert(forall|k: int|
        0 <= k < st2.edges.len() ==> are_of_member(
            (#[trigger] st2.edges[k]).support_refs,
            cx.request.member_alias,
        )) by {
        reveal(is_grounded);
    }
    anchoring_edges_is_well(cx, st2, st2.edges, 0);
    facts_are_told(cx, st3, 0);
    grows_further(st1, st2, st3);
    grows_further(st1, st3, st4);
    if let Some(catalog) = cx.cfg {
        regions_are_well(cx, catalog, st4, Seq::empty(), st4.visited, 0);
        grows_further(st1, st4, done);
    }
}

proof fn what_is_told_is_shown(
    set: PreparedCallableFactSetModel,
    cx: FlowContext,
    done: FlowStateModel,
    slice: FlowSliceModel,
    symbol: Seq<char>,
)
    requires
        facts_read(set) is Ok,
        cx.facts == facts_read(set)->Ok_0,
        slice.request == cx.request,
        slice.boundaries == done.boundaries,
        slice.verification_obligations == done.obligations,
        grounded(cx, done),
        forall|k: int|
            0 <= k < cx.facts.len() && is_relevant(cx, done.visited, #[trigger] cx.facts[k])
                ==> is_told(cx, done, cx.facts[k]),
        done.visited.contains(symbol),
    ensures
        is_bounded(set, slice, symbol),
{
    let member = slice.request.member_alias;
    assert forall|f: IndexedFactModel| #[trigger] bounds_symbol(set, member, symbol, f) implies ({
        let row = f.fact->Boundary_0;
        &&& shows(slice, row.code, symbol, rests_on(f))
        &&& forall|k: int|
            0 <= k < row.required_checks.len() ==> slice.verification_obligations.contains(
                #[trigger] row.required_checks[k],
            )
    }) by {
        let row = f.fact->Boundary_0;
        facts_are_of_set(set, f);
        let k = choose|k: int| 0 <= k < cx.facts.len() && cx.facts[k] == f;
        assert(is_relevant(cx, done.visited, cx.facts[k]));
        assert(is_told(cx, done, f));
        let id = boundary_id(member, row.code, symbol, rests_on(f));
        let i = choose|i: int|
            0 <= i < done.boundaries.len() && FlowBoundary::key(#[trigger] done.boundaries[i])
                == id;
        let b = slice.boundaries[i];
        assert(b.boundary_id == boundary_id(member, b.code, b.subject, b.support_refs)) by {
            reveal(is_grounded);
            assert(done.boundaries[i] == b);
        }
        identities_are_digests(
            member,
            b.code,
            b.subject,
            b.support_refs,
            row.code,
            symbol,
            rests_on(f),
        );
        assert(is_shown_by(member, slice.boundaries[i], row.code, symbol, rests_on(f)));
    }
}

/// A slice shows all that bounds what it has come to: for every boundary fact of the member
/// of the root about the root, about a callable that an edge of the slice leads to, or, where
/// nothing was cut off, about the symbol of a callable node, there is a boundary with its code
/// and its subject, and its checks are among the obligations.
pub proof fn boundary_facts_are_shown(
    request: FlowRequestModel,
    set: PreparedCallableFactSetModel,
    cfg: Option<Map<(Seq<char>, Seq<char>), PreparedLocalCfgModel>>,
    p: PreparedFlowSliceModel,
)
    requires
        flow_built(request, set, cfg) == Ok::<PreparedFlowSliceModel, ErrorModel>(p),
    ensures
        is_bounded(set, p.slice, request.root),
        forall|i: int|
            0 <= i < p.slice.nodes.len() && p.slice.status == FlowStatus::Complete && (
            #[trigger] p.slice.nodes[i]).node_kind == FlowNodeKind::Callable
                && p.slice.nodes[i].member_alias == request.member_alias ==> is_bounded(
                set,
                p.slice,
                p.slice.nodes[i].symbol_identity,
            ),
        forall|i: int|
            0 <= i < p.slice.edges.len() && (#[trigger] p.slice.edges[i]).relationship_authority
                == RelationshipAuthority::VerifiedSameSnapshotCompilationDependency
                ==> exists|f: IndexedFactModel, symbol: Seq<char>| #[trigger]
                leads_to(set, p.slice.edges[i], f, symbol) && is_bounded(set, p.slice, symbol),
{
    let (cx, st, done) = built_from(request, set, cfg, p);
    assert(st.visited[0] == request.root);
    assert(done.visited.contains(request.root)) by {
        reveal(grows);
        assert(st.visited.contains(st.visited[0]));
    }
    what_is_told_is_shown(set, cx, done, p.slice, request.root);
    assert forall|i: int|
        0 <= i < p.slice.nodes.len() && p.slice.status == FlowStatus::Complete && (
        #[trigger] p.slice.nodes[i]).node_kind == FlowNodeKind::Callable
            && p.slice.nodes[i].member_alias == request.member_alias implies is_bounded(
        set,
        p.slice,
        p.slice.nodes[i].symbol_identity,
    ) by {
        assert(done.visited.contains(p.slice.nodes[i].symbol_identity)) by {
            reveal(is_grounded);
            assert(done.nodes[i] == p.slice.nodes[i]);
        }
        what_is_told_is_shown(set, cx, done, p.slice, p.slice.nodes[i].symbol_identity);
    }
    assert forall|i: int|
        0 <= i < p.slice.edges.len() && (#[trigger] p.slice.edges[i]).relationship_authority
            == RelationshipAuthority::VerifiedSameSnapshotCompilationDependency
            implies exists|f: IndexedFactModel, symbol: Seq<char>| #[trigger]
        leads_to(set, p.slice.edges[i], f, symbol) && is_bounded(set, p.slice, symbol) by {
        let e = p.slice.edges[i];
        assert(has_come_to(cx, done.visited, e)) by {
            reveal(is_grounded);
            assert(done.edges[i] == e);
        }
        let (k, symbol) = choose|k: int, symbol: Seq<char>|
            #![trigger resolves_to(cx.facts[k], symbol)]
            0 <= k < cx.facts.len() && e.support_refs == rests_on(cx.facts[k]) && resolves_to(
                cx.facts[k],
                symbol,
            ) && done.visited.contains(symbol);
        facts_are_of_set(set, cx.facts[k]);
        what_is_told_is_shown(set, cx, done, p.slice, symbol);
        assert(leads_to(set, p.slice.edges[i], cx.facts[k], symbol));
    }
}

/// Every boundary of a slice has a reason: it has a code of its own, with the check that this
/// asks for, or it says what a boundary fact says of a symbol of the member of the root. All
/// that supports it comes from this member, so it stems from no fact of another one.
pub proof fn boundaries_have_reasons(
    request: FlowRequestModel,
    set: PreparedCallableFactSetModel,
    cfg: Option<Map<(Seq<char>, Seq<char>), PreparedLocalCfgModel>>,
    p: PreparedFlowSliceModel,
)
    requires
        flow_built(request, set, cfg) == Ok::<PreparedFlowSliceModel, ErrorModel>(p),
    ensures
        forall|i: int|
            0 <= i < p.slice.boundaries.len() ==> {
                &&& are_of_member(
                    (#[trigger] p.slice.boundaries[i]).support_refs,
                    request.member_alias,
                )
                &&& has_reason(set, request.member_alias, p.slice.boundaries[i])
            },
{
    let (cx, st, done) = built_from(request, set, cfg, p);
    let member = request.member_alias;
    crate::thread_flow::traversal_is_exhaustive(cx, st, traversed(cx, st, cx.facts.len())->Ok_0);
    crate::thread_flow_depth::completion_keeps_flow(cx, st);
    assert forall|i: int| 0 <= i < p.slice.boundaries.len() implies ({
        &&& are_of_member((#[trigger] p.slice.boundaries[i]).support_refs, member)
        &&& has_reason(set, member, p.slice.boundaries[i])
    }) by {
        let b = p.slice.boundaries[i];
        assert(are_of_member(b.support_refs, member) && is_explained(cx, done.visited, b)) by {
            reveal(is_grounded);
            assert(done.boundaries[i] == b);
        }
        if !(exists|check: Seq<char>| #[trigger]
            is_own_code(b.code, check) && b.required_checks == seq![check]) {
            let k = choose|k: int|
                0 <= k < cx.facts.len() && stems_from(b, #[trigger] cx.facts[k]) && is_relevant(
                    cx,
                    done.visited,
                    cx.facts[k],
                );
            let f = cx.facts[k];
            facts_are_of_set(set, f);
            assert(bounds_symbol(set, member, b.subject, f));
            let j = choose|j: int| 0 <= j < done.visited.len() && done.visited[j] == b.subject;
            let declared = declarations_of(cx.facts, member, done.visited[j]);
            assert(declared.len() > 0);
            declared_is_declared(cx, b.subject);
            facts_are_of_set(set, declared[0]);
            assert(has_fact(set, declared[0]) && declares(declared[0], member, b.subject));
        }
    }
}

/// The context, the first and the last state of a slice that is built.
pub proof fn built_from(
    request: FlowRequestModel,
    set: PreparedCallableFactSetModel,
    cfg: Option<Map<(Seq<char>, Seq<char>), PreparedLocalCfgModel>>,
    p: PreparedFlowSliceModel,
) -> (r: (FlowContext, FlowStateModel, FlowStateModel))
    requires
        flow_built(request, set, cfg) == Ok::<PreparedFlowSliceModel, ErrorModel>(p),
    ensures
        facts_read(set) is Ok,
        r.0.facts == facts_read(set)->Ok_0,
        r.0.request == request,
        started(r.0) == Ok::<FlowStateModel, ErrorModel>(r.1),
        completed(r.0, r.1) is Ok,
        completed(r.0, r.1)->Ok_0.0 == r.2,
        follows_from(r.0, r.1, r.2),
        p.slice.request == request,
        p.slice.nodes == r.2.nodes,
        p.slice.edges == r.2.edges,
        p.slice.boundaries == r.2.boundaries,
        p.slice.verification_obligations == r.2.obligations,
        p.slice.status == FlowStatus::Complete ==> !r.2.truncated,
        grounded(r.0, r.1),
        r.0.pair == request_checked(request, set)->Ok_0,
        r.0.members == last_table::<CallableMemberBinding>(set.authority.members),
{
    let pair = request_checked(request, set)->Ok_0;
    let facts = facts_read(set)->Ok_0;
    let cx = context_of(request, set, pair, facts, cfg);
    let st = started(cx)->Ok_0;
    let roots = declarations_of(cx.facts, cx.request.member_alias, cx.request.root);
    declared_is_declared(cx, cx.request.root);
    supports_of_member(cx, roots[0]);
    assert(grounded(cx, st)) by {
        reveal(is_grounded);
        assert(st.visited[0] == cx.request.root);
        assert(st.visited.contains(cx.request.root));
    }
    completion_is_well(cx, st);
    (cx, st, completed(cx, st)->Ok_0.0)
}

/// A verified slice has come to nothing that a boundary fact of its member is about.
pub proof fn nothing_bounds_a_verified_slice(
    request: FlowRequestModel,
    set: PreparedCallableFactSetModel,
    cfg: Option<Map<(Seq<char>, Seq<char>), PreparedLocalCfgModel>>,
    p: PreparedFlowSliceModel,
)
    requires
        flow_built(request, set, cfg) == Ok::<PreparedFlowSliceModel, ErrorModel>(p),
        p.slice.certainty == FlowCertainty::Verified,
    ensures
        p.slice.status == FlowStatus::Complete,
        forall|i: int, f: IndexedFactModel|
            #![trigger bounds_symbol(set, request.member_alias, p.slice.nodes[i].symbol_identity, f)]
            0 <= i < p.slice.nodes.len() && p.slice.nodes[i].node_kind == FlowNodeKind::Callable
                && p.slice.nodes[i].member_alias == request.member_alias ==> !bounds_symbol(
                set,
                request.member_alias,
                p.slice.nodes[i].symbol_identity,
                f,
            ),
{
    boundary_facts_are_shown(request, set, cfg, p);
    assert(p.slice.boundaries.len() == 0);
    assert forall|i: int, f: IndexedFactModel|
        #![trigger bounds_symbol(set, request.member_alias, p.slice.nodes[i].symbol_identity, f)]
        0 <= i < p.slice.nodes.len() && p.slice.nodes[i].node_kind == FlowNodeKind::Callable
            && p.slice.nodes[i].member_alias == request.member_alias implies !bounds_symbol(
        set,
        request.member_alias,
        p.slice.nodes[i].symbol_identity,
        f,
    ) by {
        assert(p.slice.nodes[i] == p.slice.nodes[i]);
        if bounds_symbol(set, request.member_alias, p.slice.nodes[i].symbol_identity, f) {
            assert(is_bounded(set, p.slice, p.slice.nodes[i].symbol_identity));
            assert(p.slice.request == request);
        }
    }
}

} // verus!
