//! What a comparison of two lanes sees: declarations with the same symbol are compared with
//! each other, and every other declaration is part of one further observation, which claims
//! an addition or a removal only where absence is known on both sides.

use vstd::prelude::*;

use crate::order;
use crate::table::{
    first_table, first_table_is_table, found_is_there, has_key, is_table, record_at, repeats,
    table_holds_its_keys, Keyed,
};
use crate::text::text_less_irreflexive;
use crate::thread_change_set::{
    are_paired, finding_ids, lanes_compared, matches_compared, observed, pair_compared,
    rest_compared, unmatched, ChangeDeclarationEvidence, ChangeDeclarationEvidenceModel,
    ChangeObligationDetailModel, ChangeObligationPhase, Compared, ComparisonObligationCode,
    KotlinChangeCode, KotlinChangeObservationModel, LaneDeclarationsModel,
};
use crate::thread_change_set_sight::{
    differ_in, has_ordered_shape, is_of_pair, observes_behind, pairs_are_seen_through, same_rest,
};
use crate::thread_impact::ImpactSide;

verus! {

/// Whether no two declarations of a lane have the same symbol.
pub open spec fn symbols_differ(declarations: Seq<ChangeDeclarationEvidenceModel>) -> bool {
    forall|i: int, j: int|
        0 <= i < j < declarations.len() ==> (#[trigger] declarations[i]).symbol_identity != (
        #[trigger] declarations[j]).symbol_identity
}

/// Whether all declarations of a lane have shapes in order.
pub open spec fn shapes_are_ordered(declarations: Seq<ChangeDeclarationEvidenceModel>) -> bool {
    forall|i: int|
        0 <= i < declarations.len() ==> has_ordered_shape(#[trigger] declarations[i])
}

/// Whether two declarations have the same symbol.
pub open spec fn match_up(
    before: LaneDeclarationsModel,
    after: LaneDeclarationsModel,
    b: ChangeDeclarationEvidenceModel,
    a: ChangeDeclarationEvidenceModel,
) -> bool {
    before.exact.contains(b) && after.exact.contains(a) && b.symbol_identity == a.symbol_identity
}

/// Whether any two declarations have the same symbol.
pub open spec fn some_match(before: LaneDeclarationsModel, after: LaneDeclarationsModel) -> bool {
    exists|b: ChangeDeclarationEvidenceModel, a: ChangeDeclarationEvidenceModel| #[trigger]
        match_up(before, after, b, a)
}

/// Whether a declaration of a lane has the symbol of none of another lane.
pub open spec fn is_alone(
    d: ChangeDeclarationEvidenceModel,
    own: LaneDeclarationsModel,
    other: LaneDeclarationsModel,
) -> bool {
    own.exact.contains(d) && forall|k: int|
        0 <= k < other.exact.len() ==> (#[trigger] other.exact[k]).symbol_identity
            != d.symbol_identity
}

/// Whether a lane has a declaration that is alone.
pub open spec fn some_alone(own: LaneDeclarationsModel, other: LaneDeclarationsModel) -> bool {
    exists|d: ChangeDeclarationEvidenceModel| #[trigger] is_alone(d, own, other)
}

/// Whether a declaration is the only one of a lane that is alone.
pub open spec fn is_only_one(
    d: ChangeDeclarationEvidenceModel,
    own: LaneDeclarationsModel,
    other: LaneDeclarationsModel,
) -> bool {
    is_alone(d, own, other) && forall|x: ChangeDeclarationEvidenceModel| #[trigger]
        is_alone(x, own, other) ==> x == d
}

/// Whether two declarations stand for each other though their symbols differ: nothing matches,
/// neither lane has another one, and the compiler calls them the same.
pub open spec fn stand_in(
    before: LaneDeclarationsModel,
    after: LaneDeclarationsModel,
    b: ChangeDeclarationEvidenceModel,
    a: ChangeDeclarationEvidenceModel,
) -> bool {
    &&& is_only_one(b, before, after)
    &&& is_only_one(a, after, before)
    &&& !some_match(before, after)
    &&& b.compiler_callable_id is Some
    &&& b.compiler_callable_id == a.compiler_callable_id
}

/// Whether any two declarations stand for each other.
pub open spec fn some_stand_in(
    before: LaneDeclarationsModel,
    after: LaneDeclarationsModel,
) -> bool {
    exists|b: ChangeDeclarationEvidenceModel, a: ChangeDeclarationEvidenceModel| #[trigger]
        stand_in(before, after, b, a)
}

/// Whether two declarations are compared with each other.
pub open spec fn meet(
    before: LaneDeclarationsModel,
    after: LaneDeclarationsModel,
    b: ChangeDeclarationEvidenceModel,
    a: ChangeDeclarationEvidenceModel,
) -> bool {
    match_up(before, after, b, a) || stand_in(before, after, b, a)
}

/// Whether some declarations are compared with no other one.
pub open spec fn some_left(before: LaneDeclarationsModel, after: LaneDeclarationsModel) -> bool {
    (some_alone(before, after) || some_alone(after, before)) && !some_stand_in(before, after)
}

/// The code of the observation of the declarations that are compared with no other one.
pub open spec fn code_of_rest(
    before: LaneDeclarationsModel,
    after: LaneDeclarationsModel,
) -> KotlinChangeCode {
    if !before.absence_complete || !after.absence_complete {
        KotlinChangeCode::KcdUnsupportedComparison
    } else if some_match(before, after) || some_alone(before, after) && some_alone(after, before) {
        KotlinChangeCode::KcdOverloadSetChanged
    } else if some_alone(after, before) {
        KotlinChangeCode::KcdCallableAdded
    } else {
        KotlinChangeCode::KcdCallableRemoved
    }
}

/// Whether an observation is that of the declarations that are compared with no other one.
pub open spec fn is_of_rest(
    o: KotlinChangeObservationModel,
    side: ImpactSide,
    before: LaneDeclarationsModel,
    after: LaneDeclarationsModel,
) -> bool {
    &&& some_left(before, after)
    &&& o.side == side
    &&& o.code == code_of_rest(before, after)
    &&& forall|d: ChangeDeclarationEvidenceModel| #[trigger]
        o.before.contains(d) <==> is_alone(d, before, after)
    &&& forall|d: ChangeDeclarationEvidenceModel| #[trigger]
        o.after.contains(d) <==> is_alone(d, after, before)
}

/// Whether the comparison of two declarations is left open.
pub open spec fn is_open_pair(
    x: ChangeObligationDetailModel,
    side: ImpactSide,
    b: ChangeDeclarationEvidenceModel,
    a: ChangeDeclarationEvidenceModel,
) -> bool {
    !same_rest(b, a) && x == (ChangeObligationDetailModel::Comparison {
        phase: ChangeObligationPhase::Comparison,
        side,
        code: ComparisonObligationCode::VerifyUnsupportedComparison,
        before_finding_ids: seq![b.finding_id],
        after_finding_ids: seq![a.finding_id],
    })
}

/// Whether identities are those of the findings of the declarations that are alone.
pub open spec fn are_ids_of_alone(
    ids: Seq<Seq<char>>,
    own: LaneDeclarationsModel,
    other: LaneDeclarationsModel,
) -> bool {
    forall|id: Seq<char>| #[trigger]
        ids.contains(id) <==> exists|d: ChangeDeclarationEvidenceModel| #[trigger]
            is_alone(d, own, other) && d.finding_id == id
}

/// Whether the comparison of the rest is left open.
pub open spec fn is_open_rest(
    x: ChangeObligationDetailModel,
    side: ImpactSide,
    before: LaneDeclarationsModel,
    after: LaneDeclarationsModel,
) -> bool {
    &&& some_left(before, after)
    &&& match x {
        ChangeObligationDetailModel::Comparison {
            phase,
            side: told,
            code,
            before_finding_ids,
            after_finding_ids,
        } => {
            &&& phase == ChangeObligationPhase::Comparison
            &&& told == side
            &&& if !before.absence_complete || !after.absence_complete {
                code == ComparisonObligationCode::VerifyUnsupportedComparison
            } else {
                some_alone(before, after) && some_alone(after, before) && code
                    == ComparisonObligationCode::DisambiguateOverloadSet
            }
            &&& are_ids_of_alone(before_finding_ids, before, after)
            &&& are_ids_of_alone(after_finding_ids, after, before)
        },
        _ => false,
    }
}

/// Whether all that two declarations differ in is observed from a place on, and what has no
/// code is left open from another one on.
pub open spec fn tells_pair(
    r: Compared,
    n: int,
    m: int,
    side: ImpactSide,
    b: ChangeDeclarationEvidenceModel,
    a: ChangeDeclarationEvidenceModel,
) -> bool {
    &&& forall|code: KotlinChangeCode| #[trigger]
        differ_in(code, b, a) ==> exists|i: int|
            n <= i < r.observations.len() && (#[trigger] r.observations[i]).code == code
                && is_of_pair(r.observations[i], side, b, a)
    &&& !same_rest(b, a) ==> exists|i: int|
        m <= i < r.obligations.len() && is_open_pair(#[trigger] r.obligations[i], side, b, a)
}

proof fn pair_is_told(
    c: Compared,
    side: ImpactSide,
    b: ChangeDeclarationEvidenceModel,
    a: ChangeDeclarationEvidenceModel,
    n: int,
    m: int,
)
    requires
        has_ordered_shape(b),
        has_ordered_shape(a),
        0 <= n <= c.observations.len(),
        0 <= m <= c.obligations.len(),
    ensures
        ({
            let r = pair_compared(c, side, b, a);
            &&& c.observations.is_prefix_of(r.observations)
            &&& c.obligations.is_prefix_of(r.obligations)
            &&& tells_pair(r, n, m, side, b, a)
            &&& forall|i: int|
                c.observations.len() <= i < r.observations.len() ==> is_of_pair(
                    #[trigger] r.observations[i],
                    side,
                    b,
                    a,
                )
            &&& forall|i: int|
                c.obligations.len() <= i < r.obligations.len() ==> is_open_pair(
                    #[trigger] r.obligations[i],
                    side,
                    b,
                    a,
                )
        }),
{
    pairs_are_seen_through(c, side, b, a);
    let r = pair_compared(c, side, b, a);
    let k = c.observations.len() as int;
    assert forall|code: KotlinChangeCode| #[trigger] differ_in(code, b, a) implies exists|i: int|
        n <= i < r.observations.len() && (#[trigger] r.observations[i]).code == code && is_of_pair(
            r.observations[i],
            side,
            b,
            a,
        ) by {
        assert(observes_behind(r.observations, k, code));
        let i = choose|i: int|
            k <= i < r.observations.len() && (#[trigger] r.observations[i]).code == code;
        assert(is_of_pair(r.observations[i], side, b, a));
    }
    assert(c.obligations =~= r.obligations.take(c.obligations.len() as int));
    if !same_rest(b, a) {
        assert(is_open_pair(r.obligations[c.obligations.len() as int], side, b, a));
    }
}

/// What is told of two declarations stays told.
pub proof fn told_stays(
    c: Compared,
    r: Compared,
    n: int,
    m: int,
    side: ImpactSide,
    b: ChangeDeclarationEvidenceModel,
    a: ChangeDeclarationEvidenceModel,
)
    requires
        0 <= n,
        0 <= m,
        tells_pair(c, n, m, side, b, a),
        c.observations.is_prefix_of(r.observations),
        c.obligations.is_prefix_of(r.obligations),
    ensures
        tells_pair(r, n, m, side, b, a),
{
    assert forall|code: KotlinChangeCode| #[trigger] differ_in(code, b, a) implies exists|i: int|
        n <= i < r.observations.len() && (#[trigger] r.observations[i]).code == code && is_of_pair(
            r.observations[i],
            side,
            b,
            a,
        ) by {
        let i = choose|i: int|
            n <= i < c.observations.len() && (#[trigger] c.observations[i]).code == code
                && is_of_pair(c.observations[i], side, b, a);
        assert(r.observations[i] == c.observations[i]);
    }
    if !same_rest(b, a) {
        let i = choose|i: int|
            m <= i < c.obligations.len() && is_open_pair(#[trigger] c.obligations[i], side, b, a);
        assert(r.obligations[i] == c.obligations[i]);
    }
}

/// The declaration among others with the same symbol.
spec fn partner(
    after: Seq<ChangeDeclarationEvidenceModel>,
    b: ChangeDeclarationEvidenceModel,
) -> Option<ChangeDeclarationEvidenceModel> {
    record_at::<ChangeDeclarationEvidence>(after, b.symbol_identity)
}

spec fn explains_observation(
    before: Seq<ChangeDeclarationEvidenceModel>,
    after: Seq<ChangeDeclarationEvidenceModel>,
    side: ImpactSide,
    o: KotlinChangeObservationModel,
) -> bool {
    exists|k: int|
        0 <= k < before.len() && partner(after, #[trigger] before[k]) is Some && is_of_pair(
            o,
            side,
            before[k],
            partner(after, before[k])->0,
        )
}

spec fn explains_obligation(
    before: Seq<ChangeDeclarationEvidenceModel>,
    after: Seq<ChangeDeclarationEvidenceModel>,
    side: ImpactSide,
    x: ChangeObligationDetailModel,
) -> bool {
    exists|k: int|
        0 <= k < before.len() && partner(after, #[trigger] before[k]) is Some && is_open_pair(
            x,
            side,
            before[k],
            partner(after, before[k])->0,
        )
}

proof fn matches_are_told(
    c: Compared,
    side: ImpactSide,
    before: Seq<ChangeDeclarationEvidenceModel>,
    after: Seq<ChangeDeclarationEvidenceModel>,
    i: int,
    n: int,
    m: int,
)
    requires
        0 <= i,
        0 <= n <= c.observations.len(),
        0 <= m <= c.obligations.len(),
        shapes_are_ordered(before),
        shapes_are_ordered(after),
    ensures
        ({
            let r = matches_compared(c, side, before, after, i);
            &&& c.observations.is_prefix_of(r.observations)
            &&& c.obligations.is_prefix_of(r.obligations)
            &&& forall|k: int|
                i <= k < before.len() && partner(after, #[trigger] before[k]) is Some
                    ==> tells_pair(r, n, m, side, before[k], partner(after, before[k])->0)
            &&& forall|j: int|
                c.observations.len() <= j < r.observations.len() ==> explains_observation(
                    before,
                    after,
                    side,
                    #[trigger] r.observations[j],
                )
            &&& forall|j: int|
                c.obligations.len() <= j < r.obligations.len() ==> explains_obligation(
                    before,
                    after,
                    side,
                    #[trigger] r.obligations[j],
                )
        }),
    decreases before.len() - i,
{
    let r = matches_compared(c, side, before, after, i);
    if i < before.len() {
        match partner(after, before[i]) {
            None => {
                matches_are_told(c, side, before, after, i + 1, n, m);
            },
            Some(other) => {
                found_is_there::<ChangeDeclarationEvidence>(after, before[i].symbol_identity);
                let q = choose|q: int| 0 <= q < after.len() && after[q] == other;
                assert(has_ordered_shape(after[q]));
                assert(has_ordered_shape(before[i]));
                let c2 = pair_compared(c, side, before[i], other);
                pair_is_told(c, side, before[i], other, n, m);
                assert(c2.observations.len() >= c.observations.len());
                assert(c2.obligations.len() >= c.obligations.len());
                matches_are_told(c2, side, before, after, i + 1, n, m);
                assert(c.observations =~= r.observations.take(c.observations.len() as int)) by {
                    assert(c.observations == c2.observations.take(c.observations.len() as int));
                    assert(c2.observations == r.observations.take(c2.observations.len() as int));
                }
                assert(c.obligations =~= r.obligations.take(c.obligations.len() as int)) by {
                    assert(c.obligations == c2.obligations.take(c.obligations.len() as int));
                    assert(c2.obligations == r.obligations.take(c2.obligations.len() as int));
                }
                told_stays(c2, r, n, m, side, before[i], other);
                assert forall|j: int|
                    c.observations.len() <= j < r.observations.len() implies explains_observation(
                    before,
                    after,
                    side,
                    #[trigger] r.observations[j],
                ) by {
                    if j < c2.observations.len() {
                        assert(r.observations[j] == c2.observations[j]);
                        assert(partner(after, before[i]) is Some);
                    }
                }
                assert forall|j: int|
                    c.obligations.len() <= j < r.obligations.len() implies explains_obligation(
                    before,
                    after,
                    side,
                    #[trigger] r.obligations[j],
                ) by {
                    if j < c2.obligations.len() {
                        assert(r.obligations[j] == c2.obligations[j]);
                        assert(partner(after, before[i]) is Some);
                    }
                }
            },
        }
    } else {
        assert(c.observations =~= c.observations.take(c.observations.len() as int));
        assert(c.obligations =~= c.obligations.take(c.obligations.len() as int));
    }
}

proof fn lane_is_table(declarations: Seq<ChangeDeclarationEvidenceModel>)
    requires
        !repeats::<ChangeDeclarationEvidence>(declarations),
    ensures
        is_table::<ChangeDeclarationEvidence>(
            first_table::<ChangeDeclarationEvidence>(declarations),
        ),
        forall|d: ChangeDeclarationEvidenceModel| #[trigger]
            first_table::<ChangeDeclarationEvidence>(declarations).contains(d)
                == declarations.contains(d),
        shapes_are_ordered(declarations) ==> shapes_are_ordered(
            first_table::<ChangeDeclarationEvidence>(declarations),
        ),
{
    let t = first_table::<ChangeDeclarationEvidence>(declarations);
    first_table_is_table::<ChangeDeclarationEvidence>(declarations);
    assert forall|d: ChangeDeclarationEvidenceModel| #[trigger] t.contains(d)
        == declarations.contains(d) by {
        table_holds_its_keys::<ChangeDeclarationEvidence>(declarations, d);
        if declarations.contains(d) {
            let k = choose|k: int|
                0 <= k < t.len() && ChangeDeclarationEvidence::key(#[trigger] t[k])
                    == ChangeDeclarationEvidence::key(d);
            assert(t.contains(t[k]));
            table_holds_its_keys::<ChangeDeclarationEvidence>(declarations, t[k]);
            let i = choose|i: int| 0 <= i < declarations.len() && declarations[i] == d;
            let j = choose|j: int| 0 <= j < declarations.len() && declarations[j] == t[k];
            if i != j {
                let (p, q) = if i < j {
                    (i, j)
                } else {
                    (j, i)
                };
                assert(ChangeDeclarationEvidence::key(declarations[p])
                    == ChangeDeclarationEvidence::key(declarations[q]));
            }
        }
    }
    if shapes_are_ordered(declarations) {
        assert forall|i: int| 0 <= i < t.len() implies has_ordered_shape(#[trigger] t[i]) by {
            assert(t.contains(t[i]));
            let j = choose|j: int| 0 <= j < declarations.len() && declarations[j] == t[i];
            assert(has_ordered_shape(declarations[j]));
        }
    }
}

proof fn filtered<A>(s: Seq<A>, pred: spec_fn(A) -> bool, x: A)
    ensures
        s.filter(pred).contains(x) == (s.contains(x) && pred(x)),
{
    let f = s.filter(pred);
    if f.contains(x) {
        let k = choose|k: int| 0 <= k < f.len() && f[k] == x;
        s.lemma_filter_pred(pred, k);
        s.lemma_filter_contains_rev(pred, x);
    }
    if s.contains(x) && pred(x) {
        let k = choose|k: int| 0 <= k < s.len() && s[k] == x;
        s.lemma_filter_contains(pred, k);
    }
}

proof fn filtering_lengths(
    s: Seq<ChangeDeclarationEvidenceModel>,
    pred: spec_fn(ChangeDeclarationEvidenceModel) -> bool,
)
    requires
        symbols_differ(s),
    ensures
        s.filter(pred).len() <= s.len(),
        s.filter(pred).len() < s.len() <==> exists|k: int| 0 <= k < s.len() && !pred(#[trigger] s[k]),
        symbols_differ(s.filter(pred)),
    decreases s.len(),
{
    reveal(Seq::filter);
    if s.len() > 0 {
        let before = s.drop_last();
        assert(symbols_differ(before)) by {
            assert forall|i: int, j: int| 0 <= i < j < before.len() implies (
            #[trigger] before[i]).symbol_identity != (#[trigger] before[j]).symbol_identity by {
                assert(s[i] == before[i] && s[j] == before[j]);
            }
        }
        filtering_lengths(before, pred);
        let f = before.filter(pred);
        let g = s.filter(pred);
        if exists|k: int| 0 <= k < before.len() && !pred(#[trigger] before[k]) {
            let k = choose|k: int| 0 <= k < before.len() && !pred(#[trigger] before[k]);
            assert(!pred(s[k]));
        }
        if exists|k: int| 0 <= k < s.len() && !pred(#[trigger] s[k]) {
            let k = choose|k: int| 0 <= k < s.len() && !pred(#[trigger] s[k]);
            if k < before.len() {
                assert(!pred(before[k]));
            }
        }
        assert forall|i: int, j: int| 0 <= i < j < g.len() implies (
        #[trigger] g[i]).symbol_identity != (#[trigger] g[j]).symbol_identity by {
            if j < f.len() {
                assert(f[i] == g[i] && f[j] == g[j]);
            } else {
                assert(f[i] == g[i]);
                assert(f.contains(f[i]));
                filtered(before, pred, f[i]);
                let k = choose|k: int| 0 <= k < before.len() && before[k] == f[i];
                assert(s[k] == f[i]);
                assert(s[k].symbol_identity != s[s.len() - 1].symbol_identity);
            }
        }
    }
}

proof fn table_symbols_differ(t: Seq<ChangeDeclarationEvidenceModel>)
    requires
        is_table::<ChangeDeclarationEvidence>(t),
    ensures
        symbols_differ(t),
{
    assert forall|i: int, j: int| 0 <= i < j < t.len() implies (#[trigger] t[i]).symbol_identity != (
    #[trigger] t[j]).symbol_identity by {
        assert(crate::text::text_less(
            ChangeDeclarationEvidence::key(t[i]),
            ChangeDeclarationEvidence::key(t[j]),
        ));
        text_less_irreflexive(t[i].symbol_identity);
    }
}

proof fn symbol_is_there(other: LaneDeclarationsModel, symbol: Seq<char>)
    requires
        !repeats::<ChangeDeclarationEvidence>(other.exact),
    ensures
        has_key::<ChangeDeclarationEvidence>(
            first_table::<ChangeDeclarationEvidence>(other.exact),
            symbol,
        ) == exists|k: int|
            0 <= k < other.exact.len() && (#[trigger] other.exact[k]).symbol_identity == symbol,
{
    let a = first_table::<ChangeDeclarationEvidence>(other.exact);
    lane_is_table(other.exact);
    if has_key::<ChangeDeclarationEvidence>(a, symbol) {
        let k = choose|k: int|
            0 <= k < a.len() && ChangeDeclarationEvidence::key(#[trigger] a[k]) == symbol;
        assert(a.contains(a[k]));
        let j = choose|j: int| 0 <= j < other.exact.len() && other.exact[j] == a[k];
        assert(other.exact[j].symbol_identity == symbol);
    }
    if exists|k: int|
        0 <= k < other.exact.len() && (#[trigger] other.exact[k]).symbol_identity == symbol {
        let k = choose|k: int|
            0 <= k < other.exact.len() && (#[trigger] other.exact[k]).symbol_identity == symbol;
        assert(other.exact.contains(other.exact[k]));
        assert(a.contains(other.exact[k]));
        let j = choose|j: int| 0 <= j < a.len() && a[j] == other.exact[k];
        assert(ChangeDeclarationEvidence::key(a[j]) == symbol);
    }
}

proof fn unmatched_is_alone(
    own: LaneDeclarationsModel,
    other: LaneDeclarationsModel,
    d: ChangeDeclarationEvidenceModel,
)
    requires
        !repeats::<ChangeDeclarationEvidence>(own.exact),
        !repeats::<ChangeDeclarationEvidence>(other.exact),
    ensures
        unmatched(
            first_table::<ChangeDeclarationEvidence>(own.exact),
            first_table::<ChangeDeclarationEvidence>(other.exact),
        ).contains(d) == is_alone(d, own, other),
{
    let b = first_table::<ChangeDeclarationEvidence>(own.exact);
    let a = first_table::<ChangeDeclarationEvidence>(other.exact);
    lane_is_table(own.exact);
    symbol_is_there(other, d.symbol_identity);
    filtered(
        b,
        |d: ChangeDeclarationEvidenceModel|
            !has_key::<ChangeDeclarationEvidence>(a, d.symbol_identity),
        d,
    );
    assert(b.contains(d) == own.exact.contains(d));
}

proof fn fewer_are_matched(own: LaneDeclarationsModel, other: LaneDeclarationsModel)
    requires
        !repeats::<ChangeDeclarationEvidence>(own.exact),
        !repeats::<ChangeDeclarationEvidence>(other.exact),
    ensures
        ({
            let b = first_table::<ChangeDeclarationEvidence>(own.exact);
            let a = first_table::<ChangeDeclarationEvidence>(other.exact);
            &&& symbols_differ(unmatched(b, a))
            &&& unmatched(b, a).len() < b.len() <==> some_match(own, other)
        }),
{
    let b = first_table::<ChangeDeclarationEvidence>(own.exact);
    let a = first_table::<ChangeDeclarationEvidence>(other.exact);
    let pred = |d: ChangeDeclarationEvidenceModel|
        !has_key::<ChangeDeclarationEvidence>(a, d.symbol_identity);
    lane_is_table(own.exact);
    table_symbols_differ(b);
    filtering_lengths(b, pred);
    if unmatched(b, a).len() < b.len() {
        let k = choose|k: int| 0 <= k < b.len() && !pred(#[trigger] b[k]);
        assert(b.contains(b[k]));
        symbol_is_there(other, b[k].symbol_identity);
        let j = choose|j: int|
            0 <= j < other.exact.len() && (#[trigger] other.exact[j]).symbol_identity
                == b[k].symbol_identity;
        assert(other.exact.contains(other.exact[j]));
        assert(match_up(own, other, b[k], other.exact[j]));
    }
    if some_match(own, other) {
        let (p, q) = choose|p: ChangeDeclarationEvidenceModel, q: ChangeDeclarationEvidenceModel|
            #[trigger] match_up(own, other, p, q);
        assert(b.contains(p));
        let k = choose|k: int| 0 <= k < b.len() && b[k] == p;
        let j = choose|j: int| 0 <= j < other.exact.len() && other.exact[j] == q;
        assert(other.exact[j].symbol_identity == p.symbol_identity);
        symbol_is_there(other, p.symbol_identity);
        assert(!pred(b[k]));
    }
}

proof fn unmatched_are_alone(own: LaneDeclarationsModel, other: LaneDeclarationsModel)
    requires
        !repeats::<ChangeDeclarationEvidence>(own.exact),
        !repeats::<ChangeDeclarationEvidence>(other.exact),
    ensures
        ({
            let b = first_table::<ChangeDeclarationEvidence>(own.exact);
            let a = first_table::<ChangeDeclarationEvidence>(other.exact);
            let u = unmatched(b, a);
            &&& forall|d: ChangeDeclarationEvidenceModel| #[trigger]
                u.contains(d) == is_alone(d, own, other)
            &&& u.len() < b.len() <==> some_match(own, other)
            &&& u.len() > 0 <==> some_alone(own, other)
            &&& u.len() == 1 ==> is_only_one(u[0], own, other)
            &&& forall|d: ChangeDeclarationEvidenceModel| #[trigger]
                is_only_one(d, own, other) ==> u.len() == 1
        }),
{
    let b = first_table::<ChangeDeclarationEvidence>(own.exact);
    let a = first_table::<ChangeDeclarationEvidence>(other.exact);
    let u = unmatched(b, a);
    fewer_are_matched(own, other);
    assert forall|d: ChangeDeclarationEvidenceModel| #[trigger] u.contains(d) == is_alone(
        d,
        own,
        other,
    ) by {
        unmatched_is_alone(own, other, d);
    }
    if u.len() > 0 {
        assert(u.contains(u[0]));
        assert(is_alone(u[0], own, other));
    }
    if some_alone(own, other) {
        let d = choose|d: ChangeDeclarationEvidenceModel| #[trigger] is_alone(d, own, other);
        assert(u.contains(d));
    }
    if u.len() == 1 {
        assert(u.contains(u[0]));
        assert forall|x: ChangeDeclarationEvidenceModel| #[trigger] is_alone(
            x,
            own,
            other,
        ) implies x == u[0] by {
            assert(u.contains(x));
        }
    }
    assert forall|d: ChangeDeclarationEvidenceModel| #[trigger] is_only_one(
        d,
        own,
        other,
    ) implies u.len() == 1 by {
        assert(u.contains(d));
        if u.len() > 1 {
            assert(u.contains(u[0]) && u.contains(u[1]));
            assert(is_alone(u[0], own, other) && is_alone(u[1], own, other));
            assert(u[0].symbol_identity != u[1].symbol_identity);
        }
    }
}

proof fn matching_is_mutual(before: LaneDeclarationsModel, after: LaneDeclarationsModel)
    ensures
        some_match(before, after) == some_match(after, before),
{
    if some_match(before, after) {
        let (b, a) = choose|b: ChangeDeclarationEvidenceModel, a: ChangeDeclarationEvidenceModel|
            #[trigger] match_up(before, after, b, a);
        assert(match_up(after, before, a, b));
    }
    if some_match(after, before) {
        let (b, a) = choose|b: ChangeDeclarationEvidenceModel, a: ChangeDeclarationEvidenceModel|
            #[trigger] match_up(after, before, b, a);
        assert(match_up(before, after, a, b));
    }
}

/// An observation has just the declarations that it is made of.
pub proof fn observed_has_all(
    code: KotlinChangeCode,
    side: ImpactSide,
    before: Seq<ChangeDeclarationEvidenceModel>,
    after: Seq<ChangeDeclarationEvidenceModel>,
)
    ensures
        ({
            let o = observed(code, side, before, after);
            &&& o.code == code
            &&& o.side == side
            &&& forall|d: ChangeDeclarationEvidenceModel| #[trigger]
                o.before.contains(d) == before.contains(d)
            &&& forall|d: ChangeDeclarationEvidenceModel| #[trigger]
                o.after.contains(d) == after.contains(d)
        }),
{
    broadcast use vstd::seq_lib::group_to_multiset_ensures;

    reveal(observed);
    let o = observed(code, side, before, after);
    order::sorted_is_sorted::<ChangeDeclarationEvidence>(before);
    order::sorted_is_sorted::<ChangeDeclarationEvidence>(after);
    assert forall|d: ChangeDeclarationEvidenceModel| #[trigger] o.before.contains(d)
        == before.contains(d) by {
        assert(o.before.to_multiset().count(d) == before.to_multiset().count(d));
    }
    assert forall|d: ChangeDeclarationEvidenceModel| #[trigger] o.after.contains(d)
        == after.contains(d) by {
        assert(o.after.to_multiset().count(d) == after.to_multiset().count(d));
    }
}

proof fn ids_are_of_alone(
    u: Seq<ChangeDeclarationEvidenceModel>,
    own: LaneDeclarationsModel,
    other: LaneDeclarationsModel,
)
    requires
        forall|d: ChangeDeclarationEvidenceModel| #[trigger]
            u.contains(d) == is_alone(d, own, other),
    ensures
        are_ids_of_alone(finding_ids(u), own, other),
{
    let ids = finding_ids(u);
    assert forall|id: Seq<char>| #[trigger] ids.contains(id) <==> exists|
        d: ChangeDeclarationEvidenceModel,
    | #[trigger] is_alone(d, own, other) && d.finding_id == id by {
        if ids.contains(id) {
            let k = choose|k: int| 0 <= k < ids.len() && ids[k] == id;
            assert(u.contains(u[k]));
            assert(is_alone(u[k], own, other) && u[k].finding_id == id);
        }
        if exists|d: ChangeDeclarationEvidenceModel| #[trigger]
            is_alone(d, own, other) && d.finding_id == id {
            let d = choose|d: ChangeDeclarationEvidenceModel| #[trigger]
                is_alone(d, own, other) && d.finding_id == id;
            assert(u.contains(d));
            let k = choose|k: int| 0 <= k < u.len() && u[k] == d;
            assert(ids[k] == id);
        }
    }
}

/// Whether a comparison of two lanes has told all: behind what was found before, all that any
/// two declarations differ in that are compared with each other, and the rest.
pub open spec fn tells_lanes(
    c: Compared,
    r: Compared,
    side: ImpactSide,
    before: LaneDeclarationsModel,
    after: LaneDeclarationsModel,
) -> bool {
    let n = c.observations.len() as int;
    let m = c.obligations.len() as int;
    &&& c.observations.is_prefix_of(r.observations)
    &&& c.obligations.is_prefix_of(r.obligations)
    &&& forall|b: ChangeDeclarationEvidenceModel, a: ChangeDeclarationEvidenceModel| #[trigger]
        meet(before, after, b, a) ==> tells_pair(r, n, m, side, b, a)
    &&& some_left(before, after) ==> exists|i: int|
        n <= i < r.observations.len() && is_of_rest(
            #[trigger] r.observations[i],
            side,
            before,
            after,
        )
    &&& some_left(before, after) && (!before.absence_complete || !after.absence_complete
        || some_alone(before, after) && some_alone(after, before)) ==> exists|i: int|
        m <= i < r.obligations.len() && is_open_rest(
            #[trigger] r.obligations[i],
            side,
            before,
            after,
        )
}

/// Whether all that a comparison of two lanes has told has a reason: it is of two declarations
/// that are compared with each other and differ so, or of the rest.
pub open spec fn has_reasons(
    c: Compared,
    r: Compared,
    side: ImpactSide,
    before: LaneDeclarationsModel,
    after: LaneDeclarationsModel,
) -> bool {
    &&& forall|i: int|
        c.observations.len() <= i < r.observations.len() ==> is_of_rest(
            #[trigger] r.observations[i],
            side,
            before,
            after,
        ) || exists|b: ChangeDeclarationEvidenceModel, a: ChangeDeclarationEvidenceModel|
            #[trigger] meet(before, after, b, a) && is_of_pair(r.observations[i], side, b, a)
    &&& forall|i: int|
        c.obligations.len() <= i < r.obligations.len() ==> is_open_rest(
            #[trigger] r.obligations[i],
            side,
            before,
            after,
        ) || exists|b: ChangeDeclarationEvidenceModel, a: ChangeDeclarationEvidenceModel|
            #[trigger] meet(before, after, b, a) && is_open_pair(r.obligations[i], side, b, a)
}

/// Two lanes are compared exactly where no symbol stands twice in one of them. Then declarations
/// with the same symbol are compared with each other, and so are two that stand for each other;
/// every other declaration is in one further observation, whose code claims no more than is
/// known; and all that is observed or left open comes of these.
#[verifier::rlimit(40)]
pub proof fn lanes_are_seen_through(
    c: Compared,
    side: ImpactSide,
    before: LaneDeclarationsModel,
    after: LaneDeclarationsModel,
)
    requires
        shapes_are_ordered(before.exact),
        shapes_are_ordered(after.exact),
    ensures
        lanes_compared(c, side, before, after) is Ok <==> symbols_differ(before.exact)
            && symbols_differ(after.exact),
        match lanes_compared(c, side, before, after) {
            Ok(r) => tells_lanes(c, r, side, before, after) && has_reasons(
                c,
                r,
                side,
                before,
                after,
            ),
            Err(_) => true,
        },
{
    assert(repeats::<ChangeDeclarationEvidence>(before.exact) == !symbols_differ(before.exact)) by {
        repeats_are_symbols(before.exact);
    }
    assert(repeats::<ChangeDeclarationEvidence>(after.exact) == !symbols_differ(after.exact)) by {
        repeats_are_symbols(after.exact);
    }
    if symbols_differ(before.exact) && symbols_differ(after.exact) {
        let b = first_table::<ChangeDeclarationEvidence>(before.exact);
        let a = first_table::<ChangeDeclarationEvidence>(after.exact);
        let mid = matches_compared(c, side, b, a, 0);
        let r = lanes_compared(c, side, before, after)->Ok_0;
        let n = c.observations.len() as int;
        let m = c.obligations.len() as int;
        lane_is_table(before.exact);
        lane_is_table(after.exact);
        matches_are_told(c, side, b, a, 0, n, m);
        unmatched_are_alone(before, after);
        unmatched_are_alone(after, before);
        matching_is_mutual(before, after);
        let u = unmatched(b, a);
        let v = unmatched(a, b);
        partners_match(before, after);
        rest_is_told(mid, side, before, after, u, v, n, m);
        let complete = before.absence_complete && after.absence_complete;
        assert((u.len() < b.len()) == some_match(before, after));
        assert(r == rest_compared(mid, side, some_match(before, after), complete, u, v));
        let rest = rest_compared(mid, side, some_match(before, after), complete, u, v);
        let p = mid.observations.len() as int;
        let q = mid.obligations.len() as int;
        assert(r.observations == rest.observations && r.obligations == rest.obligations);
        if some_left(before, after) {
            assert(is_of_rest(rest.observations[p], side, before, after));
            assert(rest.observations[p] == r.observations[p]);
            assert(is_of_rest(r.observations[p], side, before, after));
            if !complete || some_alone(before, after) && some_alone(after, before) {
                assert(is_open_rest(r.obligations[q], side, before, after));
            }
        }
        assert(c.observations =~= r.observations.take(n)) by {
            assert(c.observations == mid.observations.take(n));
            assert(mid.observations == r.observations.take(mid.observations.len() as int));
        }
        assert(c.obligations =~= r.obligations.take(m)) by {
            assert(c.obligations == mid.obligations.take(m));
            assert(mid.obligations == r.obligations.take(mid.obligations.len() as int));
        }
        assert forall|x: ChangeDeclarationEvidenceModel, y: ChangeDeclarationEvidenceModel|
            #[trigger] meet(before, after, x, y) implies tells_pair(r, n, m, side, x, y) by {
            if match_up(before, after, x, y) {
                assert(b.contains(x));
                let k = choose|k: int| 0 <= k < b.len() && b[k] == x;
                assert(partner(a, b[k]) == Some(y));
                told_stays(mid, r, n, m, side, x, y);
            } else {
                assert(u.contains(x) && v.contains(y));
                assert(u.len() == 1 && v.len() == 1);
            }
        }
        assert forall|i: int| n <= i < r.observations.len() implies is_of_rest(
            #[trigger] r.observations[i],
            side,
            before,
            after,
        ) || exists|x: ChangeDeclarationEvidenceModel, y: ChangeDeclarationEvidenceModel|
            #[trigger] meet(before, after, x, y) && is_of_pair(r.observations[i], side, x, y) by {
            if i < mid.observations.len() {
                assert(r.observations[i] == mid.observations[i]);
                assert(explains_observation(b, a, side, mid.observations[i]));
                let k = choose|k: int|
                    0 <= k < b.len() && partner(a, #[trigger] b[k]) is Some && is_of_pair(
                        mid.observations[i],
                        side,
                        b[k],
                        partner(a, b[k])->0,
                    );
                assert(b.contains(b[k]));
                assert(meet(before, after, b[k], partner(a, b[k])->0));
            } else if are_paired(some_match(before, after), u, v) {
                assert(all_of_pair(rest.observations, p, side, u[0], v[0]));
                assert(is_of_pair(r.observations[i], side, u[0], v[0]));
                assert(meet(before, after, u[0], v[0]));
            } else {
                assert(all_of_rest(rest.observations, p, side, before, after));
                assert(is_of_rest(r.observations[i], side, before, after));
            }
        }
        assert forall|i: int| m <= i < r.obligations.len() implies is_open_rest(
            #[trigger] r.obligations[i],
            side,
            before,
            after,
        ) || exists|x: ChangeDeclarationEvidenceModel, y: ChangeDeclarationEvidenceModel|
            #[trigger] meet(before, after, x, y) && is_open_pair(r.obligations[i], side, x, y) by {
            if i < mid.obligations.len() {
                assert(r.obligations[i] == mid.obligations[i]);
                assert(explains_obligation(b, a, side, mid.obligations[i]));
                let k = choose|k: int|
                    0 <= k < b.len() && partner(a, #[trigger] b[k]) is Some && is_open_pair(
                        mid.obligations[i],
                        side,
                        b[k],
                        partner(a, b[k])->0,
                    );
                assert(b.contains(b[k]));
                assert(meet(before, after, b[k], partner(a, b[k])->0));
            } else if are_paired(some_match(before, after), u, v) {
                assert(all_open_pair(rest.obligations, q, side, u[0], v[0]));
                assert(is_open_pair(r.obligations[i], side, u[0], v[0]));
                assert(meet(before, after, u[0], v[0]));
            } else {
                assert(all_open_rest(rest.obligations, q, side, before, after));
                assert(is_open_rest(r.obligations[i], side, before, after));
            }
        }
    }
}

proof fn repeats_are_symbols(declarations: Seq<ChangeDeclarationEvidenceModel>)
    ensures
        repeats::<ChangeDeclarationEvidence>(declarations) == !symbols_differ(declarations),
{
    if repeats::<ChangeDeclarationEvidence>(declarations) {
        let (i, j) = choose|i: int, j: int|
            0 <= i < j < declarations.len() && ChangeDeclarationEvidence::key(
                #[trigger] declarations[i],
            ) == ChangeDeclarationEvidence::key(#[trigger] declarations[j]);
        assert(declarations[i].symbol_identity == declarations[j].symbol_identity);
    }
    if !symbols_differ(declarations) {
        let (i, j) = choose|i: int, j: int|
            0 <= i < j < declarations.len() && (#[trigger] declarations[i]).symbol_identity == (
            #[trigger] declarations[j]).symbol_identity;
        assert(ChangeDeclarationEvidence::key(declarations[i]) == ChangeDeclarationEvidence::key(
            declarations[j],
        ));
    }
}

proof fn partners_match(before: LaneDeclarationsModel, after: LaneDeclarationsModel)
    requires
        !repeats::<ChangeDeclarationEvidence>(before.exact),
        !repeats::<ChangeDeclarationEvidence>(after.exact),
    ensures
        forall|x: ChangeDeclarationEvidenceModel, y: ChangeDeclarationEvidenceModel|
            before.exact.contains(x) ==> (#[trigger] match_up(before, after, x, y) == (partner(
                first_table::<ChangeDeclarationEvidence>(after.exact),
                x,
            ) == Some(y))),
{
    let a = first_table::<ChangeDeclarationEvidence>(after.exact);
    lane_is_table(after.exact);
    table_symbols_differ(a);
    assert forall|x: ChangeDeclarationEvidenceModel, y: ChangeDeclarationEvidenceModel|
        before.exact.contains(x) implies (#[trigger] match_up(before, after, x, y) == (partner(a, x)
        == Some(y))) by {
        found_is_there::<ChangeDeclarationEvidence>(a, x.symbol_identity);
        if match_up(before, after, x, y) {
            assert(a.contains(y));
            let k = choose|k: int| 0 <= k < a.len() && a[k] == y;
            assert(ChangeDeclarationEvidence::key(a[k]) == x.symbol_identity);
            let z = partner(a, x)->0;
            let j = choose|j: int| 0 <= j < a.len() && a[j] == z;
            if j != k {
                assert(a[j].symbol_identity == a[k].symbol_identity);
            }
        }
        if partner(a, x) == Some(y) {
            assert(a.contains(y));
        }
    }
}

spec fn all_of_pair(
    s: Seq<KotlinChangeObservationModel>,
    n: int,
    side: ImpactSide,
    b: ChangeDeclarationEvidenceModel,
    a: ChangeDeclarationEvidenceModel,
) -> bool {
    forall|i: int| n <= i < s.len() ==> is_of_pair(#[trigger] s[i], side, b, a)
}

spec fn all_open_pair(
    s: Seq<ChangeObligationDetailModel>,
    n: int,
    side: ImpactSide,
    b: ChangeDeclarationEvidenceModel,
    a: ChangeDeclarationEvidenceModel,
) -> bool {
    forall|i: int| n <= i < s.len() ==> is_open_pair(#[trigger] s[i], side, b, a)
}

spec fn all_of_rest(
    s: Seq<KotlinChangeObservationModel>,
    n: int,
    side: ImpactSide,
    before: LaneDeclarationsModel,
    after: LaneDeclarationsModel,
) -> bool {
    forall|i: int| n <= i < s.len() ==> is_of_rest(#[trigger] s[i], side, before, after)
}

spec fn all_open_rest(
    s: Seq<ChangeObligationDetailModel>,
    n: int,
    side: ImpactSide,
    before: LaneDeclarationsModel,
    after: LaneDeclarationsModel,
) -> bool {
    forall|i: int| n <= i < s.len() ==> is_open_rest(#[trigger] s[i], side, before, after)
}

#[verifier::rlimit(40)]
proof fn rest_is_told(
    c: Compared,
    side: ImpactSide,
    before: LaneDeclarationsModel,
    after: LaneDeclarationsModel,
    u: Seq<ChangeDeclarationEvidenceModel>,
    v: Seq<ChangeDeclarationEvidenceModel>,
    n: int,
    m: int,
)
    requires
        0 <= n <= c.observations.len(),
        0 <= m <= c.obligations.len(),
        shapes_are_ordered(before.exact),
        shapes_are_ordered(after.exact),
        forall|d: ChangeDeclarationEvidenceModel| #[trigger]
            u.contains(d) == is_alone(d, before, after),
        forall|d: ChangeDeclarationEvidenceModel| #[trigger]
            v.contains(d) == is_alone(d, after, before),
        u.len() > 0 <==> some_alone(before, after),
        v.len() > 0 <==> some_alone(after, before),
        u.len() == 1 ==> is_only_one(u[0], before, after),
        v.len() == 1 ==> is_only_one(v[0], after, before),
        forall|d: ChangeDeclarationEvidenceModel| #[trigger]
            is_only_one(d, before, after) ==> u.len() == 1,
        forall|d: ChangeDeclarationEvidenceModel| #[trigger]
            is_only_one(d, after, before) ==> v.len() == 1,
    ensures
        ({
            let r = rest_compared(
                c,
                side,
                some_match(before, after),
                before.absence_complete && after.absence_complete,
                u,
                v,
            );
            let p = c.observations.len() as int;
            let q = c.obligations.len() as int;
            &&& c.observations.is_prefix_of(r.observations)
            &&& c.obligations.is_prefix_of(r.obligations)
            &&& some_stand_in(before, after) == are_paired(some_match(before, after), u, v)
            &&& are_paired(some_match(before, after), u, v) ==> {
                &&& stand_in(before, after, u[0], v[0])
                &&& tells_pair(r, n, m, side, u[0], v[0])
            }
            &&& are_paired(some_match(before, after), u, v) ==> all_of_pair(
                r.observations,
                p,
                side,
                u[0],
                v[0],
            ) && all_open_pair(r.obligations, q, side, u[0], v[0])
            &&& !are_paired(some_match(before, after), u, v) ==> all_of_rest(
                r.observations,
                p,
                side,
                before,
                after,
            ) && all_open_rest(r.obligations, q, side, before, after)
            &&& some_left(before, after) ==> r.observations.len() == p + 1 && is_of_rest(
                r.observations[p],
                side,
                before,
                after,
            )
            &&& some_left(before, after) && (!before.absence_complete || !after.absence_complete
                || some_alone(before, after) && some_alone(after, before)) ==> r.obligations.len()
                == q + 1 && is_open_rest(r.obligations[q], side, before, after)
        }),
{
    let matched = some_match(before, after);
    let complete = before.absence_complete && after.absence_complete;
    let r = rest_compared(c, side, matched, complete, u, v);
    let p = c.observations.len() as int;
    let q = c.obligations.len() as int;
    if are_paired(matched, u, v) {
        assert(u.contains(u[0]) && v.contains(v[0]));
        assert(stand_in(before, after, u[0], v[0]));
        let i = choose|i: int| 0 <= i < before.exact.len() && before.exact[i] == u[0];
        let j = choose|j: int| 0 <= j < after.exact.len() && after.exact[j] == v[0];
        assert(has_ordered_shape(before.exact[i]) && has_ordered_shape(after.exact[j]));
        pair_is_told(c, side, u[0], v[0], n, m);
    } else {
        if some_stand_in(before, after) {
            let (x, y) = choose|
                x: ChangeDeclarationEvidenceModel,
                y: ChangeDeclarationEvidenceModel,
            |
                #[trigger] stand_in(before, after, x, y);
            assert(is_only_one(x, before, after) && is_only_one(y, after, before));
            assert(u.contains(x) && v.contains(y));
            assert(u[0] == x && v[0] == y);
        }
        let code = code_of_rest(before, after);
        observed_has_all(code, side, u, v);
        ids_are_of_alone(u, before, after);
        ids_are_of_alone(v, after, before);
        let o = observed(code, side, u, v);
        if u.len() > 0 || v.len() > 0 {
            assert(some_left(before, after));
            assert(is_of_rest(o, side, before, after));
            assert(r.observations == c.observations.push(o));
        }
        assert(c.observations =~= r.observations.take(p));
        assert(c.obligations =~= r.obligations.take(q));
    }
}

} // verus!
