//! What becomes of the uses of a callable that a flow slice has come to: each is an edge of the
//! slice, or a boundary with a code that fits it.

use vstd::prelude::*;
use vstd::string::*;

use crate::error::ErrorModel;
use crate::table::{
    entered, entered_keeps_records, first_table, has_key, last_table, record_at, Keyed,
};
use crate::thread_callables::{
    CallableMemberBinding, CallableMemberBindingModel, PreparedCallableFactSetModel,
    RelationshipAuthority, TargetResolution, UseFactModel,
};
use crate::thread_flow::{
    boundary_id, callable_step, cut, declarations_of, declares, edge_id_of, exact_target, family_of,
    flow_built, handoff_edge_id, handoff_node, handoff_step, is_declared_use, is_use_by,
    member_with_namespace, node_for, node_of, outgoing_of, points_outside_pair, stays_inside,
    support_of, symbol_step, target_member, target_subject, traversed, use_step, uses_step,
    with_boundary, FlowBoundary, FlowContext, FlowEdge, FlowEdgeModel, FlowNodeKind,
    FlowRequestModel, FlowSliceModel, FlowSource, FlowStateModel, FlowStatus, FlowStepModel,
    FlowSupportRefModel, IndexedFactModel, PreparedFlowSliceModel,
};
use crate::thread_flow_bounds::{
    built_from, declared_is_declared, facts_are_of_set, grounded, grows, grows_further, has_fact,
    identities_are_digests, is_grounded, is_shown_by, outgoing_are_uses, rests_on, shows,
    symbol_is_well, traversal_is_well, use_is_well,
};
use crate::thread_flow_cfg::PreparedLocalCfgModel;

verus! {

/// Whether a use names the repository of a member.
pub open spec fn points_at(
    members: Seq<CallableMemberBindingModel>,
    row: UseFactModel,
    alias: Seq<char>,
) -> bool {
    exists|i: int|
        0 <= i < members.len() && (#[trigger] members[i]).member_alias == alias
            && row.target_repository_namespace == Some(members[i].repository_namespace)
}

/// Whether a use names the repository of a member, and of no other one.
pub open spec fn points_only_at(
    members: Seq<CallableMemberBindingModel>,
    row: UseFactModel,
    alias: Seq<char>,
) -> bool {
    points_at(members, row, alias) && forall|other: Seq<char>| #[trigger]
        points_at(members, row, other) ==> other == alias
}

/// Whether a use is told in a slice by a boundary with a code: the code fits what the use says
/// of its target, and of what its relationship rests on.
pub open spec fn fits(
    members: Seq<CallableMemberBindingModel>,
    facts: Seq<IndexedFactModel>,
    member: Seq<char>,
    pair: (Seq<char>, Seq<char>),
    row: UseFactModel,
    code: Seq<char>,
    subject: Seq<char>,
) -> bool {
    let is_exact = row.target_resolution == TargetResolution::ExactSymbol
        && row.target_symbol_identity is Some;
    let rests_on_snapshot = row.relationship_authority
        == RelationshipAuthority::VerifiedSameSnapshotCompilationDependency;
    let rests_on_topology = row.relationship_authority == RelationshipAuthority::DeclaredTopology;
    ||| code == "TARGET_OUTSIDE_SELECTED_PAIR"@ && exists|alias: Seq<char>| #[trigger]
        points_at(members, row, alias) && alias != pair.0 && alias != pair.1
    ||| code == "UNSUPPORTED_EXACT_PAIR_DEPENDENCY"@ && rests_on_snapshot && !points_only_at(
        members,
        row,
        member,
    )
    ||| code == "UNBOUND_COMPONENT_TARGET"@ && !rests_on_snapshot && !rests_on_topology && subject
        == row.target_callable_id
    ||| code == "AMBIGUOUS_DECLARED_TOPOLOGY_HANDOFF"@ && rests_on_topology && subject
        == row.target_callable_id
    ||| code == "DECLARED_TOPOLOGY_DIRECTION_MISMATCH"@ && rests_on_topology && subject
        == row.target_callable_id && member != pair.1
    ||| code == "DECLARED_TOPOLOGY_HANDOFF"@ && rests_on_topology && subject
        == row.target_callable_id && member == pair.1
    ||| code == "UNRESOLVED_TARGET"@ && rests_on_snapshot && points_at(members, row, member)
        && !is_exact && subject == row.target_callable_id
    ||| code == "MISSING_TARGET_DECLARATION"@ && rests_on_snapshot && points_at(
        members,
        row,
        member,
    ) && is_exact && subject == row.target_symbol_identity->0 && forall|k: int|
        0 <= k < facts.len() ==> !declares(#[trigger] facts[k], member, subject)
    ||| code == "AMBIGUOUS_TARGET_DECLARATION"@ && rests_on_snapshot && points_at(
        members,
        row,
        member,
    ) && is_exact && subject == row.target_symbol_identity->0 && exists|k: int|
        0 <= k < facts.len() && declares(#[trigger] facts[k], member, subject)
}

/// Whether a use may be an edge of the slice: it stays in the member and its target is exact
/// and declared there, or it is handed over to another component.
pub open spec fn may_be_edge(
    members: Seq<CallableMemberBindingModel>,
    facts: Seq<IndexedFactModel>,
    member: Seq<char>,
    row: UseFactModel,
) -> bool {
    ||| row.relationship_authority == RelationshipAuthority::DeclaredTopology
    ||| row.relationship_authority
        == RelationshipAuthority::VerifiedSameSnapshotCompilationDependency && points_at(
        members,
        row,
        member,
    ) && row.target_resolution == TargetResolution::ExactSymbol && row.target_symbol_identity
        is Some && exists|k: int|
        0 <= k < facts.len() && declares(
            #[trigger] facts[k],
            member,
            row.target_symbol_identity->0,
        )
}

/// Whether an edge has the identity of one by a use, between two nodes.
pub open spec fn is_edge_by(e: FlowEdgeModel, fact_id: Seq<char>) -> bool {
    exists|source: Seq<char>, target: Seq<char>|
        #![trigger edge_id_of(source, target, fact_id)]
        #![trigger handoff_edge_id(source, target, fact_id)]
        e.edge_id == edge_id_of(source, target, fact_id) || e.edge_id == handoff_edge_id(
            source,
            target,
            fact_id,
        )
}

spec fn pair_of(cx: FlowContext) -> (Seq<char>, Seq<char>) {
    (cx.pair.provider_member, cx.pair.consumer_member)
}

spec fn is_bounded_use(cx: FlowContext, st: FlowStateModel, f: IndexedFactModel) -> bool {
    exists|code: Seq<char>, subject: Seq<char>|
        #![trigger boundary_id(cx.request.member_alias, code, subject, rests_on(f))]
        fits(
            cx.members,
            cx.facts,
            cx.request.member_alias,
            pair_of(cx),
            f.fact->Use_0,
            code,
            subject,
        ) && has_key::<FlowBoundary>(
            st.boundaries,
            boundary_id(cx.request.member_alias, code, subject, rests_on(f)),
        )
}

spec fn is_edge_use(cx: FlowContext, st: FlowStateModel, f: IndexedFactModel) -> bool {
    &&& may_be_edge(cx.members, cx.facts, cx.request.member_alias, f.fact->Use_0)
    &&& exists|i: int|
        0 <= i < st.edges.len() && is_edge_by(#[trigger] st.edges[i], f.fact->Use_0.fact_id)
}

/// What becomes of a use, unless the slice is cut off.
spec fn is_settled_use(cx: FlowContext, st: FlowStateModel, f: IndexedFactModel) -> bool {
    st.truncated || is_bounded_use(cx, st, f) || is_edge_use(cx, st, f)
}

proof fn settled_stays(cx: FlowContext, st: FlowStateModel, after: FlowStateModel, f: IndexedFactModel)
    requires
        is_settled_use(cx, st, f),
        grows(st, after),
    ensures
        is_settled_use(cx, after, f),
{
    reveal(grows);
    if !after.truncated {
        if is_bounded_use(cx, st, f) {
            let (code, subject) = choose|code: Seq<char>, subject: Seq<char>|
                #![trigger boundary_id(cx.request.member_alias, code, subject, rests_on(f))]
                fits(
                    cx.members,
                    cx.facts,
                    cx.request.member_alias,
                    pair_of(cx),
                    f.fact->Use_0,
                    code,
                    subject,
                ) && has_key::<FlowBoundary>(
                    st.boundaries,
                    boundary_id(cx.request.member_alias, code, subject, rests_on(f)),
                );
            key_stays(
                st,
                after,
                boundary_id(cx.request.member_alias, code, subject, rests_on(f)),
            );
        } else {
            let i = choose|i: int|
                0 <= i < st.edges.len() && is_edge_by(
                    #[trigger] st.edges[i],
                    f.fact->Use_0.fact_id,
                );
            assert(st.edges.contains(st.edges[i]));
            assert(after.edges.contains(st.edges[i]));
            let j = choose|j: int| 0 <= j < after.edges.len() && after.edges[j] == st.edges[i];
            assert(is_edge_by(after.edges[j], f.fact->Use_0.fact_id));
        }
    }
}

proof fn key_stays(st: FlowStateModel, after: FlowStateModel, id: Seq<char>)
    requires
        grows(st, after),
        has_key::<FlowBoundary>(st.boundaries, id),
    ensures
        has_key::<FlowBoundary>(after.boundaries, id),
{
    reveal(grows);
    let k = choose|k: int|
        0 <= k < st.boundaries.len() && FlowBoundary::key(#[trigger] st.boundaries[k]) == id;
    assert(st.boundaries.contains(st.boundaries[k]));
    assert(after.boundaries.contains(st.boundaries[k]));
    let j = choose|j: int|
        0 <= j < after.boundaries.len() && after.boundaries[j] == st.boundaries[k];
    assert(FlowBoundary::key(after.boundaries[j]) == id);
}

proof fn namespaces_are_found(members: Seq<CallableMemberBindingModel>, row: UseFactModel)
    requires
        row.target_repository_namespace is Some,
    ensures
        match member_with_namespace(members, row.target_repository_namespace->0) {
            Some(alias) => points_at(members, row, alias),
            None => forall|alias: Seq<char>| !#[trigger] points_at(members, row, alias),
        },
    decreases members.len(),
{
    let ns = row.target_repository_namespace->0;
    if members.len() > 0 {
        if members[0].repository_namespace == ns {
            assert(members[0].member_alias == member_with_namespace(members, ns)->0);
        } else {
            let rest = members.drop_first();
            namespaces_are_found(rest, row);
            assert forall|alias: Seq<char>| #[trigger] points_at(members, row, alias)
                == points_at(rest, row, alias) by {
                if points_at(members, row, alias) {
                    let i = choose|i: int|
                        0 <= i < members.len() && (#[trigger] members[i]).member_alias == alias
                            && row.target_repository_namespace == Some(
                            members[i].repository_namespace,
                        );
                    assert(rest[i - 1] == members[i]);
                }
                if points_at(rest, row, alias) {
                    let i = choose|i: int|
                        0 <= i < rest.len() && (#[trigger] rest[i]).member_alias == alias
                            && row.target_repository_namespace == Some(
                            rest[i].repository_namespace,
                        );
                    assert(members[i + 1] == rest[i]);
                }
            }
        }
    }
}

proof fn targets_are_pointed_at(cx: FlowContext, row: UseFactModel)
    ensures
        match target_member(cx, row) {
            Some(alias) => points_at(cx.members, row, alias),
            None => forall|alias: Seq<char>| !#[trigger] points_at(cx.members, row, alias),
        },
        target_member(cx, row) != Some(cx.request.member_alias) ==> !points_only_at(
            cx.members,
            row,
            cx.request.member_alias,
        ),
{
    if row.target_repository_namespace is Some {
        namespaces_are_found(cx.members, row);
    }
}

/// A boundary that is entered is there.
proof fn bound_is_there(
    cx: FlowContext,
    st: FlowStateModel,
    code: Seq<char>,
    subject: Seq<char>,
    check: Seq<char>,
    support: Seq<FlowSupportRefModel>,
)
    ensures
        match with_boundary(cx, st, code, subject, seq![check], support) {
            Ok(after) => has_key::<FlowBoundary>(
                after.boundaries,
                boundary_id(cx.request.member_alias, code, subject, support),
            ),
            Err(_) => true,
        },
{
    let b = crate::thread_flow::FlowBoundaryModel {
        boundary_id: boundary_id(cx.request.member_alias, code, subject, support),
        code,
        subject,
        required_checks: first_table::<String>(seq![check]),
        support_refs: support,
    };
    entered_keeps_records::<FlowBoundary>(st.boundaries, b);
    assert(FlowBoundary::key(b) == b.boundary_id);
}

proof fn support_is_rest(f: IndexedFactModel)
    ensures
        seq![support_of(f)] == rests_on(f),
{
    assert(seq![support_of(f)] =~= rests_on(f));
}

proof fn declarations_say(cx: FlowContext, symbol: Seq<char>)
    ensures
        declarations_of(cx.facts, cx.request.member_alias, symbol).len() == 0 <==> forall|k: int|
            0 <= k < cx.facts.len() ==> !declares(
                #[trigger] cx.facts[k],
                cx.request.member_alias,
                symbol,
            ),
{
    let member = cx.request.member_alias;
    let found = declarations_of(cx.facts, member, symbol);
    let pred = |f: IndexedFactModel| declares(f, member, symbol);
    if found.len() > 0 {
        declared_is_declared(cx, symbol);
        assert(cx.facts.contains(found[0]));
        let k = choose|k: int| 0 <= k < cx.facts.len() && cx.facts[k] == found[0];
        assert(declares(cx.facts[k], member, symbol));
    } else {
        assert forall|k: int| 0 <= k < cx.facts.len() implies !declares(
            #[trigger] cx.facts[k],
            member,
            symbol,
        ) by {
            if declares(cx.facts[k], member, symbol) {
                cx.facts.lemma_filter_contains(pred, k);
            }
        }
    }
}

#[verifier::rlimit(60)]
proof fn use_is_settled(cx: FlowContext, st: FlowStateModel, source: FlowSource, f: IndexedFactModel)
    requires
        f.fact is Use,
        cx.pair.provider_member == cx.request.member_alias || cx.pair.consumer_member
            == cx.request.member_alias,
    ensures
        match use_step(cx, st, source, f) {
            Ok(after) => is_settled_use(cx, after, f),
            Err(_) => true,
        },
{
    reveal(use_step);
    let row = f.fact->Use_0;
    let support = seq![support_of(f)];
    support_is_rest(f);
    targets_are_pointed_at(cx, row);
    if let Ok(after) = use_step(cx, st, source, f) {
        let inside = stays_inside(cx, row);
        if !inside && points_outside_pair(cx, row) {
            bound_is_there(
                cx,
                st,
                "TARGET_OUTSIDE_SELECTED_PAIR"@,
                target_subject(row),
                "SELECT_PAIR_CONTAINING_TARGET_MEMBER"@,
                support,
            );
        } else if !inside && row.relationship_authority
            == RelationshipAuthority::VerifiedSameSnapshotCompilationDependency {
            bound_is_there(
                cx,
                st,
                "UNSUPPORTED_EXACT_PAIR_DEPENDENCY"@,
                target_subject(row),
                "VERIFY_PAIR_DEPENDENCY_OUTSIDE_V1"@,
                support,
            );
        } else if !inside && row.relationship_authority == RelationshipAuthority::DeclaredTopology {
            handoff_is_settled(cx, st, source, f);
        } else if !inside {
            bound_is_there(
                cx,
                st,
                "UNBOUND_COMPONENT_TARGET"@,
                row.target_callable_id,
                "BIND_TARGET_TO_SELECTED_PAIR"@,
                support,
            );
        } else {
            match exact_target(row) {
                None => {
                    bound_is_there(
                        cx,
                        st,
                        "UNRESOLVED_TARGET"@,
                        row.target_callable_id,
                        "RESOLVE_EXACT_FULL_SYMBOL"@,
                        support,
                    );
                },
                Some(symbol) => {
                    declarations_say(cx, symbol);
                    let targets = declarations_of(cx.facts, cx.request.member_alias, symbol);
                    if targets.len() == 0 {
                        bound_is_there(
                            cx,
                            st,
                            "MISSING_TARGET_DECLARATION"@,
                            symbol,
                            "VERIFY_TARGET_DECLARATION_IN_RETAINED_FACT_SET"@,
                            support,
                        );
                    } else if targets.len() != 1 {
                        bound_is_there(
                            cx,
                            st,
                            "AMBIGUOUS_TARGET_DECLARATION"@,
                            symbol,
                            "DISAMBIGUATE_TARGET_FULL_SYMBOL"@,
                            support,
                        );
                    } else {
                        callable_is_settled(cx, st, source, f, symbol, targets[0]);
                    }
                },
            }
        }
    }
}

proof fn handoff_is_settled(
    cx: FlowContext,
    st: FlowStateModel,
    source: FlowSource,
    f: IndexedFactModel,
)
    requires
        f.fact is Use,
        f.fact->Use_0.relationship_authority == RelationshipAuthority::DeclaredTopology,
    ensures
        match handoff_step(cx, st, source, f, f.fact->Use_0) {
            Ok(after) => is_settled_use(cx, after, f),
            Err(_) => true,
        },
{
    let row = f.fact->Use_0;
    let support = seq![support_of(f)];
    support_is_rest(f);
    if let Ok(after) = handoff_step(cx, st, source, f, row) {
        if !crate::thread_flow::is_sole_declared_pair(cx) {
            bound_is_there(
                cx,
                st,
                "AMBIGUOUS_DECLARED_TOPOLOGY_HANDOFF"@,
                row.target_callable_id,
                "DISAMBIGUATE_DECLARED_COMPONENT_PAIR"@,
                support,
            );
        } else if cx.request.member_alias != cx.pair.consumer_member {
            bound_is_there(
                cx,
                st,
                "DECLARED_TOPOLOGY_DIRECTION_MISMATCH"@,
                row.target_callable_id,
                "VERIFY_DECLARED_CONSUMER_PROVIDER_DIRECTION"@,
                support,
            );
        } else if !after.truncated {
            let target = record_at::<CallableMemberBinding>(
                cx.members,
                cx.pair.provider_member,
            )->0;
            let source_member = record_at::<CallableMemberBinding>(
                cx.members,
                cx.request.member_alias,
            )->0;
            let node = handoff_node(target, row.target_callable_id, (source.depth + 1) as usize);
            let st2 = FlowStateModel {
                nodes: entered::<crate::thread_flow::FlowNode>(st.nodes, node),
                ..st
            };
            let edge = crate::thread_flow::edge_of(
                source,
                source_member,
                node.node_id,
                target,
                f,
                row,
                handoff_edge_id(source.node_id, node.node_id, row.fact_id),
                (crate::thread_flow::FlowOrderAuthority::Unknown, None, Seq::empty()),
            );
            let st3 = FlowStateModel { edges: entered::<FlowEdge>(st2.edges, edge), ..st2 };
            bound_is_there(
                cx,
                st3,
                "DECLARED_TOPOLOGY_HANDOFF"@,
                row.target_callable_id,
                "VERIFY_RUNTIME_COMPONENT_HANDOFF"@,
                support,
            );
        }
    }
}

#[verifier::rlimit(40)]
proof fn callable_is_settled(
    cx: FlowContext,
    st: FlowStateModel,
    source: FlowSource,
    f: IndexedFactModel,
    symbol: Seq<char>,
    target: IndexedFactModel,
)
    requires
        f.fact is Use,
        may_be_edge(cx.members, cx.facts, cx.request.member_alias, f.fact->Use_0),
    ensures
        match callable_step(cx, st, source, f, f.fact->Use_0, symbol, target) {
            Ok(after) => after.truncated || is_edge_use(cx, after, f),
            Err(_) => true,
        },
{
    let row = f.fact->Use_0;
    if let Ok(after) = callable_step(cx, st, source, f, row, symbol, target) {
        if !after.truncated {
            let node = node_of(cx, target, (source.depth + 1) as usize)->Ok_0;
            let member = record_at::<CallableMemberBinding>(
                cx.members,
                cx.request.member_alias,
            )->0;
            let id = edge_id_of(source.node_id, node.node_id, row.fact_id);
            let edge = crate::thread_flow::edge_of(
                source,
                member,
                node.node_id,
                member,
                f,
                row,
                id,
                crate::thread_flow::order_of(cx, source, row),
            );
            entered_keeps_records::<FlowEdge>(st.edges, edge);
            assert(FlowEdge::key(edge) == id);
            assert(after.edges == entered::<FlowEdge>(st.edges, edge));
            let k = choose|k: int|
                0 <= k < after.edges.len() && FlowEdge::key(#[trigger] after.edges[k]) == id;
            assert(after.edges[k].edge_id == id);
            assert(is_edge_by(after.edges[k], row.fact_id));
        }
    }
}

proof fn uses_are_settled(
    cx: FlowContext,
    st: FlowStateModel,
    source: FlowSource,
    uses: Seq<IndexedFactModel>,
    i: int,
)
    requires
        grounded(cx, st),
        0 <= i,
        cx.pair.provider_member == cx.request.member_alias || cx.pair.consumer_member
            == cx.request.member_alias,
        forall|k: int|
            0 <= k < uses.len() ==> cx.facts.contains(#[trigger] uses[k]) && uses[k].fact is Use
                && uses[k].fact->Use_0.provenance.member_alias == cx.request.member_alias,
        forall|k: int| 0 <= k < i && k < uses.len() ==> is_settled_use(cx, st, #[trigger] uses[k]),
    ensures
        match uses_step(cx, st, source, uses, i) {
            Ok(after) => forall|k: int|
                0 <= k < uses.len() ==> is_settled_use(cx, after, #[trigger] uses[k]),
            Err(_) => true,
        },
    decreases uses.len() - i,
{
    if i < uses.len() {
        assert(cx.facts.contains(uses[i]));
        use_is_well(cx, st, source, uses[i]);
        use_is_settled(cx, st, source, uses[i]);
        if let Ok(st2) = use_step(cx, st, source, uses[i]) {
            assert forall|k: int| 0 <= k < i + 1 && k < uses.len() implies is_settled_use(
                cx,
                st2,
                #[trigger] uses[k],
            ) by {
                if k < i {
                    settled_stays(cx, st, st2, uses[k]);
                }
            }
            uses_are_settled(cx, st2, source, uses, i + 1);
        }
    }
}

/// What becomes of a callable that was followed.
spec fn is_settled(cx: FlowContext, st: FlowStateModel, symbol: Seq<char>) -> bool {
    let member = cx.request.member_alias;
    let declared = declarations_of(cx.facts, member, symbol);
    &&& declared.len() > 0
    &&& match declared[0].fact->Declaration_0.compiler_callable_id {
        None => has_key::<FlowBoundary>(
            st.boundaries,
            boundary_id(member, "MISSING_SOURCE_CALLABLE_ID"@, symbol, rests_on(declared[0])),
        ),
        Some(callable_id) => if family_of(cx.facts, member, callable_id).len() != 1 {
            has_key::<FlowBoundary>(
                st.boundaries,
                boundary_id(
                    member,
                    "AMBIGUOUS_SOURCE_OWNER_OVERLOAD"@,
                    callable_id,
                    rests_on(declared[0]),
                ),
            )
        } else {
            forall|k: int|
                0 <= k < cx.facts.len() && is_use_by(#[trigger] cx.facts[k], member, callable_id)
                    ==> is_settled_use(cx, st, cx.facts[k])
        },
    }
}

proof fn all_uses_go_out(cx: FlowContext, callable_id: Seq<char>, k: int)
    requires
        0 <= k < cx.facts.len(),
        is_use_by(cx.facts[k], cx.request.member_alias, callable_id),
    ensures
        outgoing_of(cx.facts, cx.request.member_alias, callable_id).contains(cx.facts[k]),
{
    let member = cx.request.member_alias;
    let p = |f: IndexedFactModel| is_use_by(f, member, callable_id) && is_declared_use(f);
    let q = |f: IndexedFactModel| is_use_by(f, member, callable_id) && !is_declared_use(f);
    let a = cx.facts.filter(p);
    let b = cx.facts.filter(q);
    let all = outgoing_of(cx.facts, member, callable_id);
    assert(all == a + b);
    if is_declared_use(cx.facts[k]) {
        cx.facts.lemma_filter_contains(p, k);
        let i = choose|i: int| 0 <= i < a.len() && a[i] == cx.facts[k];
        assert(all[i] == cx.facts[k]);
    } else {
        cx.facts.lemma_filter_contains(q, k);
        let i = choose|i: int| 0 <= i < b.len() && b[i] == cx.facts[k];
        assert(all[a.len() + i] == cx.facts[k]);
    }
}

proof fn symbol_is_settled(cx: FlowContext, st: FlowStateModel, symbol: Seq<char>, depth: usize)
    requires
        grounded(cx, st),
        cx.pair.provider_member == cx.request.member_alias || cx.pair.consumer_member
            == cx.request.member_alias,
    ensures
        match symbol_step(cx, st, symbol, depth) {
            Ok(after) => after.truncated || is_settled(cx, after, symbol),
            Err(_) => true,
        },
{
    let member = cx.request.member_alias;
    let declared = declarations_of(cx.facts, member, symbol);
    if let Ok(after) = symbol_step(cx, st, symbol, depth) {
        let support = seq![support_of(declared[0])];
        support_is_rest(declared[0]);
        match declared[0].fact->Declaration_0.compiler_callable_id {
            None => {
                bound_is_there(
                    cx,
                    st,
                    "MISSING_SOURCE_CALLABLE_ID"@,
                    symbol,
                    "VERIFY_EXACT_SOURCE_CALLABLE_ID"@,
                    support,
                );
            },
            Some(callable_id) => {
                let outgoing = outgoing_of(cx.facts, member, callable_id);
                if family_of(cx.facts, member, callable_id).len() != 1 {
                    bound_is_there(
                        cx,
                        st,
                        "AMBIGUOUS_SOURCE_OWNER_OVERLOAD"@,
                        callable_id,
                        "DISAMBIGUATE_RELATION_SOURCE_OVERLOAD"@,
                        support,
                    );
                } else if !(depth >= cx.request.budgets.max_depth && outgoing.len() > 0) {
                    let node_id = node_for(st.nodes, member, symbol)->0;
                    let source = FlowSource { symbol, depth, node_id };
                    outgoing_are_uses(cx, callable_id);
                    uses_are_settled(cx, st, source, outgoing, 0);
                    assert forall|k: int|
                        0 <= k < cx.facts.len() && is_use_by(
                            #[trigger] cx.facts[k],
                            member,
                            callable_id,
                        ) implies is_settled_use(cx, after, cx.facts[k]) by {
                        all_uses_go_out(cx, callable_id, k);
                        let i = choose|i: int|
                            0 <= i < outgoing.len() && outgoing[i] == cx.facts[k];
                        assert(is_settled_use(cx, after, outgoing[i]));
                    }
                }
            },
        }
    }
}

proof fn settled_symbol_stays(
    cx: FlowContext,
    st: FlowStateModel,
    after: FlowStateModel,
    symbol: Seq<char>,
)
    requires
        is_settled(cx, st, symbol),
        grows(st, after),
    ensures
        is_settled(cx, after, symbol),
{
    let member = cx.request.member_alias;
    let declared = declarations_of(cx.facts, member, symbol);
    match declared[0].fact->Declaration_0.compiler_callable_id {
        None => {
            key_stays(
                st,
                after,
                boundary_id(member, "MISSING_SOURCE_CALLABLE_ID"@, symbol, rests_on(declared[0])),
            );
        },
        Some(callable_id) => {
            if family_of(cx.facts, member, callable_id).len() != 1 {
                key_stays(
                    st,
                    after,
                    boundary_id(
                        member,
                        "AMBIGUOUS_SOURCE_OWNER_OVERLOAD"@,
                        callable_id,
                        rests_on(declared[0]),
                    ),
                );
            } else {
                assert forall|k: int|
                    0 <= k < cx.facts.len() && is_use_by(
                        #[trigger] cx.facts[k],
                        member,
                        callable_id,
                    ) implies is_settled_use(cx, after, cx.facts[k]) by {
                    settled_stays(cx, st, after, cx.facts[k]);
                }
            }
        },
    }
}

/// Whether a symbol is still to be followed.
spec fn is_queued(queue: Seq<FlowStepModel>, symbol: Seq<char>) -> bool {
    exists|k: int| 0 <= k < queue.len() && (#[trigger] queue[k]).symbol == symbol
}

spec fn keeps_queue(st: FlowStateModel, after: FlowStateModel) -> bool {
    &&& st.queue.is_prefix_of(after.queue)
    &&& forall|t: Seq<char>| #[trigger]
        after.visited.contains(t) ==> st.visited.contains(t) || is_queued(after.queue, t)
}

proof fn use_keeps_queue(cx: FlowContext, st: FlowStateModel, source: FlowSource, f: IndexedFactModel)
    ensures
        match use_step(cx, st, source, f) {
            Ok(after) => keeps_queue(st, after),
            Err(_) => true,
        },
{
    reveal(use_step);
    assert(st.queue =~= st.queue.take(st.queue.len() as int));
    if let Ok(after) = use_step(cx, st, source, f) {
        if after.queue != st.queue {
            let symbol = exact_target(f.fact->Use_0)->0;
            let last = after.queue.len() - 1;
            assert(st.queue =~= after.queue.take(st.queue.len() as int));
            assert(after.queue[last].symbol == symbol);
            assert(is_queued(after.queue, symbol));
            crate::table::no_other_record_comes_in::<String>(st.visited, symbol);
            assert forall|t: Seq<char>| #[trigger] after.visited.contains(t) implies
                st.visited.contains(t) || is_queued(after.queue, t) by {
                let k = choose|k: int| 0 <= k < after.visited.len() && after.visited[k] == t;
                assert(after.visited[k] == symbol || st.visited.contains(after.visited[k]));
            }
        }
    }
}

proof fn uses_keep_queue(
    cx: FlowContext,
    st: FlowStateModel,
    source: FlowSource,
    uses: Seq<IndexedFactModel>,
    i: int,
)
    ensures
        match uses_step(cx, st, source, uses, i) {
            Ok(after) => keeps_queue(st, after),
            Err(_) => true,
        },
    decreases uses.len() - i,
{
    assert(st.queue =~= st.queue.take(st.queue.len() as int));
    if 0 <= i < uses.len() {
        use_keeps_queue(cx, st, source, uses[i]);
        if let Ok(st2) = use_step(cx, st, source, uses[i]) {
            uses_keep_queue(cx, st2, source, uses, i + 1);
            if let Ok(after) = uses_step(cx, st2, source, uses, i + 1) {
                assert(st.queue =~= after.queue.take(st.queue.len() as int)) by {
                    assert(st.queue == st2.queue.take(st.queue.len() as int));
                    assert(st2.queue == after.queue.take(st2.queue.len() as int));
                }
                assert forall|t: Seq<char>| #[trigger] after.visited.contains(t) implies
                    st.visited.contains(t) || is_queued(after.queue, t) by {
                    if st2.visited.contains(t) && !st.visited.contains(t) {
                        let k = choose|k: int|
                            0 <= k < st2.queue.len() && (#[trigger] st2.queue[k]).symbol == t;
                        assert(after.queue[k] == st2.queue[k]);
                    }
                }
            }
        }
    }
}

proof fn symbol_keeps_queue(cx: FlowContext, st: FlowStateModel, symbol: Seq<char>, depth: usize)
    ensures
        match symbol_step(cx, st, symbol, depth) {
            Ok(after) => keeps_queue(st, after),
            Err(_) => true,
        },
{
    assert(st.queue =~= st.queue.take(st.queue.len() as int));
    let member = cx.request.member_alias;
    if let Some(node_id) = node_for(st.nodes, member, symbol) {
        let declared = declarations_of(cx.facts, member, symbol);
        if declared.len() > 0 {
            if let Some(callable_id) = declared[0].fact->Declaration_0.compiler_callable_id {
                uses_keep_queue(
                    cx,
                    st,
                    FlowSource { symbol, depth, node_id },
                    outgoing_of(cx.facts, member, callable_id),
                    0,
                );
            }
        }
    }
}

/// Whether every symbol that was come to is settled or still to be followed.
spec fn all_settled(cx: FlowContext, st: FlowStateModel) -> bool {
    st.truncated || forall|t: Seq<char>| #[trigger]
        st.visited.contains(t) ==> is_queued(st.queue, t) || is_settled(cx, st, t)
}

proof fn traversal_settles(cx: FlowContext, st: FlowStateModel, n: nat)
    requires
        grounded(cx, st),
        cx.pair.provider_member == cx.request.member_alias || cx.pair.consumer_member
            == cx.request.member_alias,
        all_settled(cx, st),
    ensures
        match traversed(cx, st, n) {
            Ok(after) => all_settled(cx, after),
            Err(_) => true,
        },
    decreases n,
{
    if n > 0 && st.queue.len() > 0 {
        let next = st.queue[0];
        let rest = FlowStateModel { queue: st.queue.drop_first(), ..st };
        assert(grounded(cx, rest));
        symbol_is_well(cx, rest, next.symbol, next.depth);
        symbol_is_settled(cx, rest, next.symbol, next.depth);
        symbol_keeps_queue(cx, rest, next.symbol, next.depth);
        if let Ok(st2) = symbol_step(cx, rest, next.symbol, next.depth) {
            if !st2.truncated {
                assert(!st.truncated) by {
                    reveal(grows);
                }
                assert forall|t: Seq<char>| #[trigger] st2.visited.contains(t) implies is_queued(
                    st2.queue,
                    t,
                ) || is_settled(cx, st2, t) by {
                    if st.visited.contains(t) && t != next.symbol {
                        if is_queued(st.queue, t) {
                            let k = choose|k: int|
                                0 <= k < st.queue.len() && (#[trigger] st.queue[k]).symbol == t;
                            assert(rest.queue[k - 1] == st.queue[k]);
                            assert(st2.queue[k - 1] == rest.queue[k - 1]);
                        } else {
                            assert(grows(st, rest)) by {
                                reveal(grows);
                            }
                            grows_further(st, rest, st2);
                            settled_symbol_stays(cx, st, st2, t);
                        }
                    }
                }
            }
            traversal_settles(cx, st2, (n - 1) as nat);
        }
    }
}

/// Whether a slice tells a use, by an edge or by a boundary with a code that fits it.
pub open spec fn tells_use(
    set: PreparedCallableFactSetModel,
    facts: Seq<IndexedFactModel>,
    slice: FlowSliceModel,
    pair: (Seq<char>, Seq<char>),
    f: IndexedFactModel,
) -> bool {
    let members = last_table::<CallableMemberBinding>(set.authority.members);
    let member = slice.request.member_alias;
    let row = f.fact->Use_0;
    ||| may_be_edge(members, facts, member, row) && exists|i: int|
        0 <= i < slice.edges.len() && is_edge_by(#[trigger] slice.edges[i], row.fact_id)
    ||| exists|code: Seq<char>, subject: Seq<char>| #[trigger]
        shows(slice, code, subject, rests_on(f)) && fits(
            members,
            facts,
            member,
            pair,
            row,
            code,
            subject,
        )
}

/// In a slice that was not cut off, every use by a callable of the slice is told: by an edge,
/// where it may be one, or by a boundary whose code fits it. A callable whose uses cannot be
/// told from those of another one has a boundary that says so.
pub proof fn every_use_is_told(
    request: FlowRequestModel,
    set: PreparedCallableFactSetModel,
    cfg: Option<Map<(Seq<char>, Seq<char>), PreparedLocalCfgModel>>,
    p: PreparedFlowSliceModel,
    u: int,
    d: IndexedFactModel,
)
    requires
        flow_built(request, set, cfg) == Ok::<PreparedFlowSliceModel, ErrorModel>(p),
        p.slice.status == FlowStatus::Complete,
        0 <= u < p.slice.nodes.len(),
        p.slice.nodes[u].node_kind == FlowNodeKind::Callable,
        p.slice.nodes[u].member_alias == request.member_alias,
        has_fact(set, d),
        declares(d, request.member_alias, p.slice.nodes[u].symbol_identity),
        forall|x: IndexedFactModel|
            has_fact(set, x) && #[trigger] declares(
                x,
                request.member_alias,
                p.slice.nodes[u].symbol_identity,
            ) ==> x == d,
    ensures
        ({
            let pair = crate::thread_flow::request_checked(request, set)->Ok_0;
            let facts = crate::thread_flow::facts_read(set)->Ok_0;
            let symbol = p.slice.nodes[u].symbol_identity;
            match d.fact->Declaration_0.compiler_callable_id {
                None => shows(
                    p.slice,
                    "MISSING_SOURCE_CALLABLE_ID"@,
                    symbol,
                    rests_on(d),
                ),
                Some(callable_id) => {
                    ||| shows(
                        p.slice,
                        "AMBIGUOUS_SOURCE_OWNER_OVERLOAD"@,
                        callable_id,
                        rests_on(d),
                    )
                    ||| forall|f: IndexedFactModel|
                        has_fact(set, f) && #[trigger] is_use_by(
                            f,
                            request.member_alias,
                            callable_id,
                        ) ==> tells_use(
                            set,
                            facts,
                            p.slice,
                            (pair.provider_member, pair.consumer_member),
                            f,
                        )
                },
            }
        }),
{
    let (cx, st, done) = built_from(request, set, cfg, p);
    let symbol = p.slice.nodes[u].symbol_identity;
    let member = request.member_alias;
    assert(all_settled(cx, st)) by {
        assert forall|t: Seq<char>| #[trigger] st.visited.contains(t) implies is_queued(
            st.queue,
            t,
        ) by {
            assert(st.queue[0].symbol == cx.request.root);
        }
    }
    traversal_settles(cx, st, cx.facts.len());
    traversal_is_well(cx, st, cx.facts.len());
    let st1 = traversed(cx, st, cx.facts.len())->Ok_0;
    crate::thread_flow::traversal_is_exhaustive(cx, st, st1);
    crate::thread_flow_depth::completion_keeps_flow(cx, st);
    crate::thread_flow_bounds::completion_grows(cx, st);
    assert(done.visited.contains(symbol)) by {
        reveal(is_grounded);
        assert(done.nodes[u] == p.slice.nodes[u]);
    }
    assert(st1.visited.contains(symbol));
    assert(!is_queued(st1.queue, symbol));
    assert(is_settled(cx, st1, symbol));
    settled_symbol_stays(cx, st1, done, symbol);
    let declared = declarations_of(cx.facts, member, symbol);
    declared_is_declared(cx, symbol);
    facts_are_of_set(set, declared[0]);
    assert(declared[0] == d);
    match d.fact->Declaration_0.compiler_callable_id {
        None => {
            key_is_shown(cx, done, p.slice, "MISSING_SOURCE_CALLABLE_ID"@, symbol, rests_on(d));
        },
        Some(callable_id) => {
            if family_of(cx.facts, member, callable_id).len() != 1 {
                key_is_shown(
                    cx,
                    done,
                    p.slice,
                    "AMBIGUOUS_SOURCE_OWNER_OVERLOAD"@,
                    callable_id,
                    rests_on(d),
                );
            } else {
                assert forall|f: IndexedFactModel|
                    has_fact(set, f) && #[trigger] is_use_by(
                        f,
                        member,
                        callable_id,
                    ) implies tells_use(
                    set,
                    cx.facts,
                    p.slice,
                    (cx.pair.provider_member, cx.pair.consumer_member),
                    f,
                ) by {
                    facts_are_of_set(set, f);
                    let k = choose|k: int| 0 <= k < cx.facts.len() && cx.facts[k] == f;
                    assert(is_settled_use(cx, done, cx.facts[k]));
                    if is_bounded_use(cx, done, f) {
                        let (code, subject) = choose|code: Seq<char>, subject: Seq<char>|
                            #![trigger boundary_id(cx.request.member_alias, code, subject, rests_on(f))]
                            fits(
                                cx.members,
                                cx.facts,
                                cx.request.member_alias,
                                pair_of(cx),
                                f.fact->Use_0,
                                code,
                                subject,
                            ) && has_key::<FlowBoundary>(
                                done.boundaries,
                                boundary_id(cx.request.member_alias, code, subject, rests_on(f)),
                            );
                        key_is_shown(cx, done, p.slice, code, subject, rests_on(f));
                    }
                }
            }
        },
    }
}

proof fn key_is_shown(
    cx: FlowContext,
    done: FlowStateModel,
    slice: FlowSliceModel,
    code: Seq<char>,
    subject: Seq<char>,
    support: Seq<FlowSupportRefModel>,
)
    requires
        grounded(cx, done),
        slice.boundaries == done.boundaries,
        slice.request == cx.request,
        has_key::<FlowBoundary>(
            done.boundaries,
            boundary_id(cx.request.member_alias, code, subject, support),
        ),
    ensures
        shows(slice, code, subject, support),
{
    let member = cx.request.member_alias;
    let id = boundary_id(member, code, subject, support);
    let i = choose|i: int|
        0 <= i < done.boundaries.len() && FlowBoundary::key(#[trigger] done.boundaries[i]) == id;
    let b = slice.boundaries[i];
    assert(b.boundary_id == boundary_id(member, b.code, b.subject, b.support_refs)) by {
        reveal(is_grounded);
        assert(done.boundaries[i] == b);
    }
    identities_are_digests(
        member,
        b.code,
        b.subject,
        b.support_refs,
        code,
        subject,
        support,
    );
    assert(is_shown_by(member, slice.boundaries[i], code, subject, support));
}

} // verus!
