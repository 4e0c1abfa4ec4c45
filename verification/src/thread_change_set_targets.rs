//! What a comparison of two impacts covers: every exact declaration of both sides is compared,
//! what is not exact or was left out is said to be so, and everything that is observed or left
//! open, and every member, is a target of its own.

use vstd::prelude::*;

use crate::error::ErrorModel;
use crate::order;
use crate::order::Ordered;
use crate::table::{
    first_table, record_at, repeats, sorted, sorted_is_sorted, table_holds_its_keys, Keyed,
};
use crate::thread::ThreadMemberBinding;
use crate::thread_callables::{CallableFactSetCoverage, CallableMemberBinding, GraphCoverage};
use crate::thread_change_set::{
    any_blocks, blocks_member, categories_of, declaration_of, findings_laned, impacts_compared,
    is_exact, lane_compared, laned, lanes_compared, left_open, member_of_side, member_target,
    member_targets, obligation_target, observation_target, observed, so_far, target_of,
    targets_built, ChangeDeclarationEvidence, ChangeDeclarationEvidenceModel, ChangeMemberRole,
    ChangeObligationDetailModel, ChangeObligationModel, ChangeObligationPhase, Compared,
    ComparisonObligationCode, CoverageTarget, CoverageTargetKind, CoverageTargetModel,
    CoverageTargetSubjectModel, KotlinChangeCode, KotlinChangeObservationModel,
    LaneDeclarationsModel, MemberCorrespondenceModel, VerificationCategory, VerifiedChangeSideModel,
};
use crate::thread_change_set_lanes::{
    is_of_rest, is_open_rest, lanes_are_seen_through, meet, observed_has_all, shapes_are_ordered,
    some_alone, some_left, tells_lanes, tells_pair, told_stays,
};
use crate::thread_impact::{
    ImpactFindingAuthority, ImpactFindingDetailModel, ImpactFindingModel, ImpactObligationCode,
    ImpactSide,
};

verus! {

/// Whether a declaration is what a finding of a side says.
pub open spec fn is_said_by(
    d: ChangeDeclarationEvidenceModel,
    f: ImpactFindingModel,
    side: ImpactSide,
) -> bool {
    &&& f.side == side
    &&& d.finding_id == f.finding_id
    &&& d.fact_id == f.evidence.fact_id
    &&& d.member_alias == f.member_alias
    &&& d.authority == f.authority
    &&& d.shape_digest == f.evidence.shape_digest
    &&& f.detail == (ImpactFindingDetailModel::Declaration {
        declaration_kind: d.declaration_kind,
        symbol_identity: d.symbol_identity,
        compiler_callable_id: d.compiler_callable_id,
        compiler_class_id: d.compiler_class_id,
        projected_shape: d.projected_shape,
    })
}

/// Whether a finding is a declaration that is projected exactly, with its shape.
pub open spec fn is_comparable(f: ImpactFindingModel) -> bool {
    f.authority == ImpactFindingAuthority::ExactProjectedDeclaration && f.evidence.shape_digest
        is Some
}

/// Whether a finding of a side cannot be compared: it is a declaration that is not exact, or a
/// boundary.
pub open spec fn is_unsupported(f: ImpactFindingModel, side: ImpactSide) -> bool {
    f.side == side && match f.detail {
        ImpactFindingDetailModel::Declaration { .. } => !is_comparable(f),
        ImpactFindingDetailModel::Boundary { .. } => true,
        _ => false,
    }
}

/// Whether an impact leaves open that a declaration of a member is absent.
pub open spec fn leaves_absence_open(
    input: VerifiedChangeSideModel,
    side: ImpactSide,
) -> bool {
    let selection = input.impact.evidence.selection;
    let alias = match side {
        ImpactSide::Provider => input.impact.authority.pair.provider_member,
        ImpactSide::Consumer => input.impact.authority.pair.consumer_member,
    };
    ||| selection.findings_truncated
    ||| input.fact_set.authority.completeness.coverage != CallableFactSetCoverage::Complete
    ||| exists|i: int|
        0 <= i < selection.findings.len() && is_unsupported(
            #[trigger] selection.findings[i],
            side,
        )
    ||| exists|i: int|
        0 <= i < selection.obligations.len() && {
            let o = #[trigger] selection.obligations[i];
            &&& o.member_alias is None || o.member_alias == Some(alias)
            &&& match o.code {
                ImpactObligationCode::CompleteDescriptorScope => true,
                ImpactObligationCode::VerifyDeclarationEvidence => true,
                ImpactObligationCode::VerifyRelatedBoundary => true,
                ImpactObligationCode::VerifyBoundaryCheck => true,
                ImpactObligationCode::VerifyFactSetBoundaryScope => true,
                ImpactObligationCode::NarrowOrExpandQuery => true,
                _ => false,
            }
        }
}

/// Whether the first member of a fact set with an alias has a compilation whose descriptors
/// are not complete.
pub open spec fn lacks_descriptors(input: VerifiedChangeSideModel, alias: Seq<char>) -> bool {
    exists|i: int, j: int|
        #![trigger input.fact_set.authority.members[i].compilations[j]]
        0 <= i < input.fact_set.authority.members.len()
            && input.fact_set.authority.members[i].member_alias == alias && (forall|k: int|
            0 <= k < i ==> (#[trigger] input.fact_set.authority.members[k]).member_alias != alias)
            && 0 <= j < input.fact_set.authority.members[i].compilations.len()
            && input.fact_set.authority.members[i].compilations[j].descriptor_coverage
            != GraphCoverage::CompleteSupportedSubset
}

proof fn pushed_contains<A>(s: Seq<A>, x: A, y: A)
    ensures
        s.push(x).contains(y) == (s.contains(y) || x == y),
{
    let t = s.push(x);
    if t.contains(y) {
        let k = choose|k: int| 0 <= k < t.len() && t[k] == y;
        if k < s.len() {
            assert(s[k] == y);
        }
    }
    if s.contains(y) {
        let k = choose|k: int| 0 <= k < s.len() && s[k] == y;
        assert(t[k] == y);
    }
    assert(t[s.len() as int] == x);
}

spec fn says_exact(findings: Seq<ImpactFindingModel>, side: ImpactSide, n: int, d: ChangeDeclarationEvidenceModel) -> bool {
    exists|i: int|
        0 <= i < n && is_said_by(d, #[trigger] findings[i], side) && is_comparable(findings[i])
}

spec fn says_unsupported(findings: Seq<ImpactFindingModel>, side: ImpactSide, n: int, d: ChangeDeclarationEvidenceModel) -> bool {
    exists|i: int|
        0 <= i < n && is_said_by(d, #[trigger] findings[i], side) && !is_comparable(findings[i])
}

spec fn has_unsupported(findings: Seq<ImpactFindingModel>, side: ImpactSide, n: int, id: Seq<char>) -> bool {
    exists|i: int|
        0 <= i < n && is_unsupported(#[trigger] findings[i], side) && findings[i].finding_id == id
}

proof fn findings_are_laned(
    findings: Seq<ImpactFindingModel>,
    side: ImpactSide,
    n: nat,
    d: ChangeDeclarationEvidenceModel,
    id: Seq<char>,
)
    requires
        n <= findings.len(),
    ensures
        ({
            let lane = findings_laned(findings, side, n);
            &&& lane.exact.contains(d) == says_exact(findings, side, n as int, d)
            &&& lane.unsupported_declarations.contains(d) == says_unsupported(
                findings,
                side,
                n as int,
                d,
            )
            &&& lane.unsupported_finding_ids.contains(id) == has_unsupported(
                findings,
                side,
                n as int,
                id,
            )
        }),
    decreases n,
{
    if n > 0 {
        let f = findings[n - 1];
        let before = findings_laned(findings, side, (n - 1) as nat);
        findings_are_laned(findings, side, (n - 1) as nat, d, id);
        if let Some(x) = declaration_of(f) {
            pushed_contains(before.exact, x, d);
            pushed_contains(before.unsupported_declarations, x, d);
            assert(is_said_by(d, f, side) == (f.side == side && x == d));
            assert(is_exact(x) == is_comparable(f));
        }
        pushed_contains(before.unsupported_finding_ids, f.finding_id, id);
        assert forall|i: int| 0 <= i < n implies (i < n - 1 || #[trigger] findings[i] == f) by {}
        if says_exact(findings, side, n - 1, d) {
            let i = choose|i: int|
                0 <= i < n - 1 && is_said_by(d, #[trigger] findings[i], side) && is_comparable(
                    findings[i],
                );
            assert(is_said_by(d, findings[i], side));
        }
        if says_unsupported(findings, side, n - 1, d) {
            let i = choose|i: int|
                0 <= i < n - 1 && is_said_by(d, #[trigger] findings[i], side) && !is_comparable(
                    findings[i],
                );
            assert(is_said_by(d, findings[i], side));
        }
        if has_unsupported(findings, side, n - 1, id) {
            let i = choose|i: int|
                0 <= i < n - 1 && is_unsupported(#[trigger] findings[i], side)
                    && findings[i].finding_id == id;
            assert(is_unsupported(findings[i], side));
        }
        if f.side == side {
            assert(is_said_by(d, findings[n - 1], side) == is_said_by(d, f, side));
            assert(is_unsupported(findings[n - 1], side) == is_unsupported(f, side));
        }
    }
}

proof fn sorted_contains(
    s: Seq<ChangeDeclarationEvidenceModel>,
    d: ChangeDeclarationEvidenceModel,
)
    ensures
        sorted::<ChangeDeclarationEvidence>(s).contains(d) == s.contains(d),
{
    broadcast use vstd::seq_lib::group_to_multiset_ensures;

    sorted_is_sorted::<ChangeDeclarationEvidence>(s);
    assert(sorted::<ChangeDeclarationEvidence>(s).to_multiset().count(d) == s.to_multiset().count(
        d,
    ));
}

/// The lane of a side of an impact holds just what its findings say: the declarations that are
/// exact are compared, the findings that cannot be compared are listed, and absence is known
/// only where nothing leaves it open.
pub proof fn lanes_hold_what_is_found(
    input: VerifiedChangeSideModel,
    side: ImpactSide,
    lane: LaneDeclarationsModel,
)
    requires
        laned(input, side) == Ok::<LaneDeclarationsModel, ErrorModel>(lane),
    ensures
        ({
            let findings = input.impact.evidence.selection.findings;
            &&& forall|d: ChangeDeclarationEvidenceModel| #[trigger]
                lane.exact.contains(d) <==> exists|i: int|
                    0 <= i < findings.len() && is_said_by(d, #[trigger] findings[i], side)
                        && is_comparable(findings[i])
            &&& forall|d: ChangeDeclarationEvidenceModel| #[trigger]
                lane.unsupported_declarations.contains(d) <==> exists|i: int|
                    0 <= i < findings.len() && is_said_by(d, #[trigger] findings[i], side)
                        && !is_comparable(findings[i])
            &&& forall|id: Seq<char>| #[trigger]
                lane.unsupported_finding_ids.contains(id) <==> exists|i: int|
                    0 <= i < findings.len() && is_unsupported(#[trigger] findings[i], side)
                        && findings[i].finding_id == id
            &&& lane.absence_complete <==> !leaves_absence_open(input, side)
                && !lacks_descriptors(
                input,
                match side {
                    ImpactSide::Provider => input.impact.authority.pair.provider_member,
                    ImpactSide::Consumer => input.impact.authority.pair.consumer_member,
                },
            )
        }),
{
    reveal(laned);
    let selection = input.impact.evidence.selection;
    let findings = selection.findings;
    let n = findings.len();
    let raw = findings_laned(findings, side, n);
    let alias = member_of_side(input, side);
    assert forall|d: ChangeDeclarationEvidenceModel| #[trigger] lane.exact.contains(d) == says_exact(
        findings,
        side,
        n as int,
        d,
    ) by {
        findings_are_laned(findings, side, n, d, Seq::empty());
        sorted_contains(raw.exact, d);
    }
    assert forall|d: ChangeDeclarationEvidenceModel| #[trigger]
        lane.unsupported_declarations.contains(d) == says_unsupported(findings, side, n as int, d) by {
        findings_are_laned(findings, side, n, d, Seq::empty());
        sorted_contains(raw.unsupported_declarations, d);
    }
    let some = raw.exact[0];
    assert forall|id: Seq<char>| #[trigger] lane.unsupported_finding_ids.contains(id)
        == has_unsupported(findings, side, n as int, id) by {
        findings_are_laned(findings, side, n, some, id);
        ids_are_kept(raw.unsupported_finding_ids, id);
    }
    assert((lane.unsupported_finding_ids.len() == 0) == !(exists|i: int|
        0 <= i < findings.len() && is_unsupported(#[trigger] findings[i], side))) by {
        if lane.unsupported_finding_ids.len() > 0 {
            let id = lane.unsupported_finding_ids[0];
            assert(lane.unsupported_finding_ids.contains(id));
            assert(has_unsupported(findings, side, n as int, id));
        }
        if exists|i: int| 0 <= i < findings.len() && is_unsupported(#[trigger] findings[i], side) {
            let i = choose|i: int|
                0 <= i < findings.len() && is_unsupported(#[trigger] findings[i], side);
            assert(has_unsupported(findings, side, n as int, findings[i].finding_id));
            assert(lane.unsupported_finding_ids.contains(findings[i].finding_id));
        }
    }
    member_lacks(input, alias);
    assert(any_blocks(selection.obligations, alias) == exists|i: int|
        0 <= i < selection.obligations.len() && {
            let o = #[trigger] selection.obligations[i];
            &&& o.member_alias is None || o.member_alias == Some(alias)
            &&& match o.code {
                ImpactObligationCode::CompleteDescriptorScope => true,
                ImpactObligationCode::VerifyDeclarationEvidence => true,
                ImpactObligationCode::VerifyRelatedBoundary => true,
                ImpactObligationCode::VerifyBoundaryCheck => true,
                ImpactObligationCode::VerifyFactSetBoundaryScope => true,
                ImpactObligationCode::NarrowOrExpandQuery => true,
                _ => false,
            }
        }) by {
        if any_blocks(selection.obligations, alias) {
            let i = choose|i: int|
                0 <= i < selection.obligations.len() && blocks_member(
                    #[trigger] selection.obligations[i],
                    alias,
                );
            assert(blocks_member(selection.obligations[i], alias));
        }
        assert forall|i: int| 0 <= i < selection.obligations.len() implies blocks_member(
            #[trigger] selection.obligations[i],
            alias,
        ) == ({
            let o = selection.obligations[i];
            &&& o.member_alias is None || o.member_alias == Some(alias)
            &&& match o.code {
                ImpactObligationCode::CompleteDescriptorScope => true,
                ImpactObligationCode::VerifyDeclarationEvidence => true,
                ImpactObligationCode::VerifyRelatedBoundary => true,
                ImpactObligationCode::VerifyBoundaryCheck => true,
                ImpactObligationCode::VerifyFactSetBoundaryScope => true,
                ImpactObligationCode::NarrowOrExpandQuery => true,
                _ => false,
            }
        }) by {}
    }
}

proof fn ids_are_kept(s: Seq<Seq<char>>, id: Seq<char>)
    ensures
        first_table::<String>(s).contains(id) == s.contains(id),
{
    table_holds_its_keys::<String>(s, id);
    let t = first_table::<String>(s);
    if s.contains(id) {
        let k = choose|k: int| 0 <= k < t.len() && String::key(#[trigger] t[k]) == String::key(id);
        assert(t[k] == id);
    }
}

proof fn first_with_alias(
    members: Seq<crate::thread_callables::CallableMemberBindingModel>,
    alias: Seq<char>,
)
    ensures
        match record_at::<CallableMemberBinding>(members, alias) {
            Some(m) => exists|i: int|
                0 <= i < members.len() && #[trigger] members[i] == m && m.member_alias == alias
                    && forall|k: int| 0 <= k < i ==> (#[trigger] members[k]).member_alias != alias,
            None => true,
        },
    decreases members.len(),
{
    if members.len() > 0 {
        assert(CallableMemberBinding::key(members[0]) == members[0].member_alias);
        if members[0].member_alias == alias {
            assert(members[0] == members[0]);
        } else {
            let rest = members.drop_first();
            first_with_alias(rest, alias);
            if let Some(m) = record_at::<CallableMemberBinding>(members, alias) {
                let i = choose|i: int|
                    0 <= i < rest.len() && #[trigger] rest[i] == m && m.member_alias == alias
                        && forall|k: int| 0 <= k < i ==> (#[trigger] rest[k]).member_alias != alias;
                assert(members[i + 1] == m);
                assert forall|k: int| 0 <= k < i + 1 implies (#[trigger] members[k]).member_alias
                    != alias by {
                    if k > 0 {
                        assert(rest[k - 1] == members[k]);
                    }
                }
            }
        }
    }
}

proof fn member_lacks(input: VerifiedChangeSideModel, alias: Seq<char>)
    requires
        record_at::<CallableMemberBinding>(input.fact_set.authority.members, alias) is Some,
    ensures
        crate::thread_change_set::all_described(
            record_at::<CallableMemberBinding>(
                input.fact_set.authority.members,
                alias,
            )->0.compilations,
        ) == !lacks_descriptors(input, alias),
{
    let members = input.fact_set.authority.members;
    let m = record_at::<CallableMemberBinding>(members, alias)->0;
    first_with_alias(members, alias);
    let i = choose|i: int|
        0 <= i < members.len() && #[trigger] members[i] == m && m.member_alias == alias && forall|
            k: int,
        | 0 <= k < i ==> (#[trigger] members[k]).member_alias != alias;
    if !crate::thread_change_set::all_described(m.compilations) {
        let j = choose|j: int|
            0 <= j < m.compilations.len() && (#[trigger] m.compilations[j]).descriptor_coverage
                != GraphCoverage::CompleteSupportedSubset;
        assert(members[i].compilations[j] == m.compilations[j]);
    }
    if lacks_descriptors(input, alias) {
        let (p, j) = choose|p: int, j: int|
            #![trigger members[p].compilations[j]]
            0 <= p < members.len() && members[p].member_alias == alias && (forall|k: int|
                0 <= k < p ==> (#[trigger] members[k]).member_alias != alias) && 0 <= j
                < members[p].compilations.len() && members[p].compilations[j].descriptor_coverage
                != GraphCoverage::CompleteSupportedSubset;
        if p < i {
            assert(members[p].member_alias != alias);
        }
        if i < p {
            assert(members[i].member_alias != alias);
        }
        assert(m.compilations[j].descriptor_coverage
            != GraphCoverage::CompleteSupportedSubset);
    }
}

/// Whether some observation of a side says that something could not be compared.
pub open spec fn says_unsupported_parts(
    r: Compared,
    side: ImpactSide,
    b: LaneDeclarationsModel,
    a: LaneDeclarationsModel,
    truncated: bool,
) -> bool {
    &&& exists|i: int|
        0 <= i < r.observations.len() && {
            let o = #[trigger] r.observations[i];
            &&& o.code == KotlinChangeCode::KcdUnsupportedComparison
            &&& o.side == side
            &&& forall|d: ChangeDeclarationEvidenceModel| #[trigger]
                o.before.contains(d) <==> b.unsupported_declarations.contains(d)
            &&& forall|d: ChangeDeclarationEvidenceModel| #[trigger]
                o.after.contains(d) <==> a.unsupported_declarations.contains(d)
        }
    &&& exists|i: int|
        0 <= i < r.obligations.len() && #[trigger] r.obligations[i] == (
        ChangeObligationDetailModel::Comparison {
            phase: ChangeObligationPhase::Comparison,
            side,
            code: if truncated {
                ComparisonObligationCode::VerifyTruncatedImpactEvidence
            } else {
                ComparisonObligationCode::VerifyUnsupportedComparison
            },
            before_finding_ids: b.unsupported_finding_ids,
            after_finding_ids: a.unsupported_finding_ids,
        })
}

/// Whether a comparison tells all of a side: what could not be compared, all that declarations
/// differ in that are compared with each other, and the rest.
pub open spec fn tells_side(
    r: Compared,
    side: ImpactSide,
    before: VerifiedChangeSideModel,
    after: VerifiedChangeSideModel,
) -> bool {
    &&& laned(before, side) is Ok
    &&& laned(after, side) is Ok
    &&& {
        let b = laned(before, side)->Ok_0;
        let a = laned(after, side)->Ok_0;
        let truncated = before.impact.evidence.selection.findings_truncated
            || after.impact.evidence.selection.findings_truncated;
        &&& b.unsupported_finding_ids.len() > 0 || a.unsupported_finding_ids.len() > 0 || truncated
            ==> says_unsupported_parts(r, side, b, a, truncated)
        &&& shapes_are_ordered(b.exact) && shapes_are_ordered(a.exact) ==> {
            &&& forall|x: ChangeDeclarationEvidenceModel, y: ChangeDeclarationEvidenceModel|
                #[trigger] meet(b, a, x, y) ==> tells_pair(r, 0, 0, side, x, y)
            &&& some_left(b, a) ==> exists|i: int|
                0 <= i < r.observations.len() && is_of_rest(
                    #[trigger] r.observations[i],
                    side,
                    b,
                    a,
                )
            &&& some_left(b, a) && (!b.absence_complete || !a.absence_complete || some_alone(b, a)
                && some_alone(a, b)) ==> exists|i: int|
                0 <= i < r.obligations.len() && is_open_rest(
                    #[trigger] r.obligations[i],
                    side,
                    b,
                    a,
                )
        }
    }
}

proof fn lane_tells_side(
    c: Compared,
    side: ImpactSide,
    before: VerifiedChangeSideModel,
    after: VerifiedChangeSideModel,
    b: LaneDeclarationsModel,
    a: LaneDeclarationsModel,
)
    requires
        lane_compared(c, side, before, after) is Ok,
        laned(before, side) == Ok::<LaneDeclarationsModel, ErrorModel>(b),
        laned(after, side) == Ok::<LaneDeclarationsModel, ErrorModel>(a),
        shapes_are_ordered(b.exact),
        shapes_are_ordered(a.exact),
    ensures
        ({
            let r = lane_compared(c, side, before, after)->Ok_0;
            &&& c.observations.is_prefix_of(r.observations)
            &&& c.obligations.is_prefix_of(r.obligations)
            &&& tells_side(r, side, before, after)
        }),
{
    let r = lane_compared(c, side, before, after)->Ok_0;
    let truncated = before.impact.evidence.selection.findings_truncated
        || after.impact.evidence.selection.findings_truncated;
    let open = b.unsupported_finding_ids.len() > 0 || a.unsupported_finding_ids.len() > 0
        || truncated;
    let o = observed(
        KotlinChangeCode::KcdUnsupportedComparison,
        side,
        b.unsupported_declarations,
        a.unsupported_declarations,
    );
    let x = left_open(
        side,
        if truncated {
            ComparisonObligationCode::VerifyTruncatedImpactEvidence
        } else {
            ComparisonObligationCode::VerifyUnsupportedComparison
        },
        b.unsupported_finding_ids,
        a.unsupported_finding_ids,
    );
    let c1 = if open {
        Compared { observations: c.observations.push(o), obligations: c.obligations.push(x) }
    } else {
        c
    };
    lanes_are_seen_through(c1, side, b, a);
    observed_has_all(
        KotlinChangeCode::KcdUnsupportedComparison,
        side,
        b.unsupported_declarations,
        a.unsupported_declarations,
    );
    assert(lanes_compared(c1, side, b, a) == Ok::<Compared, ErrorModel>(r));
    assert(tells_lanes(c1, r, side, b, a));
    assert(c.observations =~= r.observations.take(c.observations.len() as int)) by {
        assert(c1.observations == r.observations.take(c1.observations.len() as int));
    }
    assert(c.obligations =~= r.obligations.take(c.obligations.len() as int)) by {
        assert(c1.obligations == r.obligations.take(c1.obligations.len() as int));
    }
    if open {
        assert(r.observations[c.observations.len() as int] == c1.observations[c.observations.len() as int]);
        assert(r.obligations[c.obligations.len() as int] == c1.obligations[c.obligations.len() as int]);
        assert(r.observations[c.observations.len() as int] == o);
        assert(r.obligations[c.obligations.len() as int] == x);
    }
    assert forall|p: ChangeDeclarationEvidenceModel, q: ChangeDeclarationEvidenceModel| #[trigger]
        meet(b, a, p, q) implies tells_pair(r, 0, 0, side, p, q) by {
        let n = c1.observations.len() as int;
        let m = c1.obligations.len() as int;
        assert(tells_pair(r, n, m, side, p, q));
        tells_from_the_start(r, n, m, side, p, q);
    }
}

proof fn tells_from_the_start(
    r: Compared,
    n: int,
    m: int,
    side: ImpactSide,
    b: ChangeDeclarationEvidenceModel,
    a: ChangeDeclarationEvidenceModel,
)
    requires
        0 <= n,
        0 <= m,
        tells_pair(r, n, m, side, b, a),
    ensures
        tells_pair(r, 0, 0, side, b, a),
{
    assert forall|code: KotlinChangeCode| #[trigger]
        crate::thread_change_set_sight::differ_in(code, b, a) implies exists|i: int|
        0 <= i < r.observations.len() && (#[trigger] r.observations[i]).code == code
            && crate::thread_change_set_sight::is_of_pair(r.observations[i], side, b, a) by {
        let i = choose|i: int|
            n <= i < r.observations.len() && (#[trigger] r.observations[i]).code == code
                && crate::thread_change_set_sight::is_of_pair(r.observations[i], side, b, a);
        assert(r.observations[i].code == code);
    }
    if !crate::thread_change_set_sight::same_rest(b, a) {
        let i = choose|i: int|
            m <= i < r.obligations.len() && crate::thread_change_set_lanes::is_open_pair(
                #[trigger] r.obligations[i],
                side,
                b,
                a,
            );
        assert(crate::thread_change_set_lanes::is_open_pair(r.obligations[i], side, b, a));
    }
}

proof fn side_stays_told(
    c: Compared,
    r: Compared,
    side: ImpactSide,
    before: VerifiedChangeSideModel,
    after: VerifiedChangeSideModel,
)
    requires
        tells_side(c, side, before, after),
        c.observations.is_prefix_of(r.observations),
        c.obligations.is_prefix_of(r.obligations),
    ensures
        tells_side(r, side, before, after),
{
    let b = laned(before, side)->Ok_0;
    let a = laned(after, side)->Ok_0;
    let truncated = before.impact.evidence.selection.findings_truncated
        || after.impact.evidence.selection.findings_truncated;
    assert forall|i: int| 0 <= i < c.observations.len() implies #[trigger] c.observations[i]
        == r.observations[i] by {}
    assert forall|i: int| 0 <= i < c.obligations.len() implies #[trigger] c.obligations[i]
        == r.obligations[i] by {}
    if says_unsupported_parts(c, side, b, a, truncated) {
        let i = choose|i: int|
            0 <= i < c.observations.len() && {
                let o = #[trigger] c.observations[i];
                &&& o.code == KotlinChangeCode::KcdUnsupportedComparison
                &&& o.side == side
                &&& forall|d: ChangeDeclarationEvidenceModel| #[trigger]
                    o.before.contains(d) <==> b.unsupported_declarations.contains(d)
                &&& forall|d: ChangeDeclarationEvidenceModel| #[trigger]
                    o.after.contains(d) <==> a.unsupported_declarations.contains(d)
            };
        assert(r.observations[i] == c.observations[i]);
        let x = ChangeObligationDetailModel::Comparison {
            phase: ChangeObligationPhase::Comparison,
            side,
            code: if truncated {
                ComparisonObligationCode::VerifyTruncatedImpactEvidence
            } else {
                ComparisonObligationCode::VerifyUnsupportedComparison
            },
            before_finding_ids: b.unsupported_finding_ids,
            after_finding_ids: a.unsupported_finding_ids,
        };
        let j = choose|j: int| 0 <= j < c.obligations.len() && #[trigger] c.obligations[j] == x;
        assert(r.obligations[j] == x);
        assert(says_unsupported_parts(r, side, b, a, truncated));
    }
    if shapes_are_ordered(b.exact) && shapes_are_ordered(a.exact) {
        assert forall|p: ChangeDeclarationEvidenceModel, q: ChangeDeclarationEvidenceModel|
            #[trigger] meet(b, a, p, q) implies tells_pair(r, 0, 0, side, p, q) by {
            told_stays(c, r, 0, 0, side, p, q);
        }
        if some_left(b, a) {
            let i = choose|i: int|
                0 <= i < c.observations.len() && is_of_rest(
                    #[trigger] c.observations[i],
                    side,
                    b,
                    a,
                );
            assert(is_of_rest(r.observations[i], side, b, a));
            if !b.absence_complete || !a.absence_complete || some_alone(b, a) && some_alone(a, b) {
                let j = choose|j: int|
                    0 <= j < c.obligations.len() && is_open_rest(
                        #[trigger] c.obligations[j],
                        side,
                        b,
                        a,
                    );
                assert(is_open_rest(r.obligations[j], side, b, a));
            }
        }
    }
}

/// Comparing two impacts tells all of the provider and all of the consumer.
pub proof fn both_sides_are_told(before: VerifiedChangeSideModel, after: VerifiedChangeSideModel)
    requires
        forall|side: ImpactSide| #[trigger]
            laned(before, side) is Ok ==> shapes_are_ordered(laned(before, side)->Ok_0.exact),
        forall|side: ImpactSide| #[trigger]
            laned(after, side) is Ok ==> shapes_are_ordered(laned(after, side)->Ok_0.exact),
    ensures
        match impacts_compared(before, after) {
            Ok(r) => tells_side(r, ImpactSide::Provider, before, after) && tells_side(
                r,
                ImpactSide::Consumer,
                before,
                after,
            ),
            Err(_) => true,
        },
{
    if impacts_compared(before, after) is Ok {
        let start = so_far(Seq::empty(), Seq::empty());
        let p = ImpactSide::Provider;
        let q = ImpactSide::Consumer;
        let mid = lane_compared(start, p, before, after)->Ok_0;
        let r = impacts_compared(before, after)->Ok_0;
        lane_tells_side(
            start,
            p,
            before,
            after,
            laned(before, p)->Ok_0,
            laned(after, p)->Ok_0,
        );
        lane_tells_side(mid, q, before, after, laned(before, q)->Ok_0, laned(after, q)->Ok_0);
        side_stays_told(mid, r, p, before, after);
    }
}

/// Whether a target asks for a category.
pub open spec fn asks(t: CoverageTargetModel, category: VerificationCategory) -> bool {
    t.required_categories.contains(category)
}

/// Whether a target is that of an observation: its structure is to be verified, and what could
/// not be compared needs the compiler too.
pub open spec fn is_target_of_observation(
    t: CoverageTargetModel,
    o: KotlinChangeObservationModel,
) -> bool {
    &&& t.target_kind == CoverageTargetKind::Observation
    &&& t.subject == (CoverageTargetSubjectModel::Observation {
        observation_id: o.observation_id,
        code: o.code,
        side: o.side,
    })
    &&& forall|category: VerificationCategory| #[trigger]
        asks(t, category) <==> category == VerificationCategory::StructuralComparison || category
            == VerificationCategory::CompilerBoundary && o.code
            == KotlinChangeCode::KcdUnsupportedComparison
}

/// Whether an obligation of an impact is about what only the compiler can tell.
pub open spec fn is_for_compiler(code: ImpactObligationCode) -> bool {
    match code {
        ImpactObligationCode::SubjectNotObservedInMember => false,
        ImpactObligationCode::VerifyUseEvidence => false,
        ImpactObligationCode::VerifyRelationshipAuthority => false,
        ImpactObligationCode::ResolveNavigationSubject => false,
        ImpactObligationCode::NarrowOrExpandQuery => false,
        _ => true,
    }
}

/// Whether a target is that of an obligation, and asks for all that it needs.
pub open spec fn is_target_of_obligation(t: CoverageTargetModel, o: ChangeObligationModel) -> bool {
    &&& t.target_kind == CoverageTargetKind::Obligation
    &&& t.subject is Obligation
    &&& t.subject->Obligation_obligation_id == o.obligation_id
    &&& forall|category: VerificationCategory| #[trigger]
        asks(t, category) <==> match o.detail {
            ChangeObligationDetailModel::Comparison { .. } => category
                == VerificationCategory::ComparisonBoundary || category
                == VerificationCategory::CompilerBoundary,
            ChangeObligationDetailModel::Upstream { obligation, .. } => {
                ||| category == VerificationCategory::UpstreamObligation
                ||| category == VerificationCategory::RelationshipAuthority && obligation.code
                    == ImpactObligationCode::VerifyRelationshipAuthority
                ||| category == VerificationCategory::CompilerBoundary && is_for_compiler(
                    obligation.code,
                )
            },
        }
}

/// Whether a target is that of a member, in its role.
pub open spec fn is_target_of_member(
    t: CoverageTargetModel,
    before: VerifiedChangeSideModel,
    mapping: MemberCorrespondenceModel,
) -> bool {
    &&& t.target_kind == CoverageTargetKind::DeclaredMember
    &&& t.subject is DeclaredMember
    &&& t.subject->DeclaredMember_before_member_alias == mapping.before_member_alias
    &&& t.subject->DeclaredMember_after_member_alias == mapping.after_member_alias
    &&& match t.subject->DeclaredMember_role {
        ChangeMemberRole::Provider => mapping.before_member_alias
            == before.impact.authority.pair.provider_member,
        ChangeMemberRole::Consumer => mapping.before_member_alias
            == before.impact.authority.pair.consumer_member && mapping.before_member_alias
            != before.impact.authority.pair.provider_member,
    }
    &&& forall|category: VerificationCategory| #[trigger]
        asks(t, category) <==> category == VerificationCategory::MemberAuthority || category
            == VerificationCategory::RelationshipAuthority
}

proof fn categories_are_kept(
    digest: Seq<char>,
    kind: CoverageTargetKind,
    categories: Seq<VerificationCategory>,
    subject: CoverageTargetSubjectModel,
)
    ensures
        ({
            let t = target_of(digest, kind, categories, subject);
            &&& t.target_kind == kind
            &&& t.subject == subject
            &&& forall|category: VerificationCategory| #[trigger]
                asks(t, category) <==> categories.contains(category)
        }),
{
    reveal(target_of);
    assert forall|x: VerificationCategory, y: VerificationCategory| #[trigger]
        VerificationCategory::parts(x) == #[trigger] VerificationCategory::parts(y) implies x == y by {
        let a = VerificationCategory::parts(x);
        let b = VerificationCategory::parts(y);
        assert(a[0] == b[0]);
        assert(x.rank() == y.rank());
    }
    order::tables_of_the_same_records::<VerificationCategory>(categories, categories);
}

proof fn observation_has_target(digest: Seq<char>, o: KotlinChangeObservationModel)
    ensures
        is_target_of_observation(observation_target(digest, o), o),
{
    let categories = if o.code == KotlinChangeCode::KcdUnsupportedComparison {
        seq![VerificationCategory::StructuralComparison, VerificationCategory::CompilerBoundary]
    } else {
        seq![VerificationCategory::StructuralComparison]
    };
    let subject = CoverageTargetSubjectModel::Observation {
        observation_id: o.observation_id,
        code: o.code,
        side: o.side,
    };
    categories_are_kept(digest, CoverageTargetKind::Observation, categories, subject);
    assert(categories[0] == VerificationCategory::StructuralComparison);
    if o.code == KotlinChangeCode::KcdUnsupportedComparison {
        assert(categories[1] == VerificationCategory::CompilerBoundary);
    }
}

proof fn obligation_has_target(digest: Seq<char>, o: ChangeObligationModel)
    ensures
        is_target_of_obligation(obligation_target(digest, o), o),
{
    let categories = categories_of(o.detail);
    let subject = CoverageTargetSubjectModel::Obligation {
        obligation_id: o.obligation_id,
        phase: crate::thread_change_set::phase_of(o.detail),
    };
    categories_are_kept(digest, CoverageTargetKind::Obligation, categories, subject);
    match o.detail {
        ChangeObligationDetailModel::Comparison { .. } => {
            assert(categories[0] == VerificationCategory::ComparisonBoundary);
            assert(categories[1] == VerificationCategory::CompilerBoundary);
        },
        ChangeObligationDetailModel::Upstream { obligation, .. } => {
            let first = seq![VerificationCategory::UpstreamObligation];
            let related = obligation.code == ImpactObligationCode::VerifyRelationshipAuthority;
            let second = crate::thread_impact::added_if(
                first,
                related,
                VerificationCategory::RelationshipAuthority,
            );
            assert forall|category: VerificationCategory| #[trigger]
                categories.contains(category) <==> {
                    ||| category == VerificationCategory::UpstreamObligation
                    ||| category == VerificationCategory::RelationshipAuthority && related
                    ||| category == VerificationCategory::CompilerBoundary && is_for_compiler(
                        obligation.code,
                    )
                } by {
                assert(first[0] == VerificationCategory::UpstreamObligation);
                pushed_contains(first, VerificationCategory::RelationshipAuthority, category);
                pushed_contains(second, VerificationCategory::CompilerBoundary, category);
            }
        },
    }
}

proof fn members_have_targets(
    targets: Seq<CoverageTargetModel>,
    digest: Seq<char>,
    before: VerifiedChangeSideModel,
    correspondence: Seq<MemberCorrespondenceModel>,
    i: int,
)
    requires
        0 <= i <= correspondence.len(),
    ensures
        match member_targets(targets, digest, before, correspondence, i) {
            Ok(all) => {
                &&& targets.is_prefix_of(all)
                &&& all.len() == targets.len() + correspondence.len() - i
                &&& forall|k: int|
                    i <= k < correspondence.len() ==> is_target_of_member(
                        all[targets.len() + k - i],
                        before,
                        #[trigger] correspondence[k],
                    )
            },
            Err(_) => true,
        },
    decreases correspondence.len() - i,
{
    if i < correspondence.len() {
        if let Ok(t) = member_target(digest, before, correspondence[i]) {
            let member = record_at::<ThreadMemberBinding>(
                before.thread.members,
                correspondence[i].before_member_alias,
            )->0;
            let categories = seq![
                VerificationCategory::MemberAuthority,
                VerificationCategory::RelationshipAuthority,
            ];
            categories_are_kept(digest, CoverageTargetKind::DeclaredMember, categories, t.subject);
            assert(t.subject is DeclaredMember) by {
                reveal(target_of);
            }
            assert(is_target_of_member(t, before, correspondence[i])) by {
                reveal(target_of);
                assert(categories[0] == VerificationCategory::MemberAuthority);
                assert(categories[1] == VerificationCategory::RelationshipAuthority);
            }
            members_have_targets(targets.push(t), digest, before, correspondence, i + 1);
            if let Ok(all) = member_targets(targets, digest, before, correspondence, i) {
                assert(targets =~= all.take(targets.len() as int)) by {
                    assert(targets.push(t) == all.take(targets.len() as int + 1));
                }
                assert(all[targets.len() as int] == t) by {
                    assert(targets.push(t) == all.take(targets.len() as int + 1));
                    assert(all.take(targets.len() as int + 1)[targets.len() as int] == t);
                }
            }
        }
    } else {
        assert(targets =~= targets.take(targets.len() as int));
    }
}

/// Every member, every observation and every obligation is a target of its own, which asks for
/// all that it needs, and nothing else is a target.
pub proof fn targets_cover_everything(
    digest: Seq<char>,
    before: VerifiedChangeSideModel,
    correspondence: Seq<MemberCorrespondenceModel>,
    observations: Seq<KotlinChangeObservationModel>,
    obligations: Seq<ChangeObligationModel>,
    max_rows: usize,
    targets: Seq<CoverageTargetModel>,
)
    requires
        targets_built(digest, before, correspondence, observations, obligations, max_rows) == Ok::<
            Seq<CoverageTargetModel>,
            ErrorModel,
        >(targets),
    ensures
        targets.len() == correspondence.len() + observations.len() + obligations.len(),
        targets.len() <= max_rows,
        forall|i: int, j: int|
            0 <= i < j < targets.len() ==> (#[trigger] targets[i]).target_id != (
            #[trigger] targets[j]).target_id,
        forall|k: int|
            0 <= k < correspondence.len() ==> exists|i: int|
                0 <= i < targets.len() && is_target_of_member(
                    #[trigger] targets[i],
                    before,
                    #[trigger] correspondence[k],
                ),
        forall|k: int|
            0 <= k < observations.len() ==> exists|i: int|
                0 <= i < targets.len() && is_target_of_observation(
                    #[trigger] targets[i],
                    #[trigger] observations[k],
                ),
        forall|k: int|
            0 <= k < obligations.len() ==> exists|i: int|
                0 <= i < targets.len() && is_target_of_obligation(
                    #[trigger] targets[i],
                    #[trigger] obligations[k],
                ),
{
    broadcast use vstd::seq_lib::group_to_multiset_ensures;

    let members = member_targets(Seq::empty(), digest, before, correspondence, 0)->Ok_0;
    members_have_targets(Seq::empty(), digest, before, correspondence, 0);
    let a = Seq::new(observations.len(), |i: int| observation_target(digest, observations[i]));
    let b = Seq::new(obligations.len(), |i: int| obligation_target(digest, obligations[i]));
    let all = members + a + b;
    sorted_is_sorted::<CoverageTarget>(all);
    assert(targets == sorted::<CoverageTarget>(all));
    assert(targets.to_multiset().len() == all.to_multiset().len());
    assert forall|t: CoverageTargetModel| all.contains(t) implies #[trigger] targets.contains(t) by {
        assert(targets.to_multiset().count(t) == all.to_multiset().count(t));
    }
    assert forall|i: int, j: int| 0 <= i < j < targets.len() implies (
    #[trigger] targets[i]).target_id != (#[trigger] targets[j]).target_id by {
        assert(!repeats::<CoverageTarget>(targets));
        assert(CoverageTarget::key(targets[i]) != CoverageTarget::key(targets[j]));
    }
    assert forall|k: int| 0 <= k < correspondence.len() implies exists|i: int|
        0 <= i < targets.len() && is_target_of_member(
            #[trigger] targets[i],
            before,
            #[trigger] correspondence[k],
        ) by {
        assert(all[k] == members[k]);
        assert(is_target_of_member(members[k], before, correspondence[k]));
        assert(all.contains(members[k]));
        assert(targets.contains(members[k]));
        let i = choose|i: int| 0 <= i < targets.len() && targets[i] == members[k];
        assert(is_target_of_member(targets[i], before, correspondence[k]));
    }
    assert forall|k: int| 0 <= k < observations.len() implies exists|i: int|
        0 <= i < targets.len() && is_target_of_observation(
            #[trigger] targets[i],
            #[trigger] observations[k],
        ) by {
        assert(all[members.len() + k] == a[k]);
        observation_has_target(digest, observations[k]);
        assert(all.contains(a[k]));
        assert(targets.contains(a[k]));
        let i = choose|i: int| 0 <= i < targets.len() && targets[i] == a[k];
        assert(is_target_of_observation(targets[i], observations[k]));
    }
    assert forall|k: int| 0 <= k < obligations.len() implies exists|i: int|
        0 <= i < targets.len() && is_target_of_obligation(
            #[trigger] targets[i],
            #[trigger] obligations[k],
        ) by {
        assert(all[members.len() + a.len() + k] == b[k]);
        obligation_has_target(digest, obligations[k]);
        assert(all.contains(b[k]));
        assert(targets.contains(b[k]));
        let i = choose|i: int| 0 <= i < targets.len() && targets[i] == b[k];
        assert(is_target_of_obligation(targets[i], obligations[k]));
    }
}

} // verus!
