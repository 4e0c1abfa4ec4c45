//! What an impact leaves to be done, and what it has found: every fact about the subject that
//! is not exact, and every boundary around it, is an obligation, and nothing else is; so an
//! impact is verified only where all that was found is exact and nothing bounds it.

use vstd::prelude::*;
use vstd::string::*;

use crate::cas::CasObjectModel;
use crate::error::ErrorModel;
use crate::fair::{fair_order, fair_order_has_all};
use crate::identity::callable_family;
use crate::order;
use crate::order::{Ordered, PartModel};
use crate::table::{
    entered, entered_keeps_records, found_is_there, has_key, no_other_record_comes_in, record_at,
    Keyed,
};
use crate::text::{after_prefix, found, found_is_first, has_prefix};
use crate::thread_callables::{
    BoundaryFactModel, CallableFactKind, CallableFactModel, CallableFactSetCertainty,
    CallableMemberBindingModel, CallableQueryTraceModel, DeclarationFactModel, GraphCoverage,
    PreparedCallableFactSetModel, RelationshipAuthority,
};
use crate::thread_impact::{
    about_all, about_fact, about_member, added_if, boundary_related, candidates_of, checks_obliged,
    descriptor_scope_complete, entries_of, entries_read, evidence_from, fact_obliged, facts_obliged,
    fairly_taken, finding_of, findings_of, impact_selected, is_bounded_declaration, is_match, lane,
    lanes_of, member_obligations, members_with, narrowed, obligations_arising, of_kind, of_side,
    parts_selected, pointer_to, repeats_fact, request_normalized, scoped, selection_of, shard_count,
    side_candidates, Candidate, CandidateModel, FactEntryModel, ImpactCertainty, ImpactFactPointer,
    ImpactFactPointerModel, ImpactFindingAuthority, ImpactFindingDetailModel, ImpactFindingModel,
    ImpactObligation, ImpactObligationCode, ImpactObligationModel, ImpactQuerySelectionModel,
    ImpactScope, ImpactShapeStatus, ImpactSide, KotlinImpactSubjectModel, ThreadImpactRequestModel,
};

verus! {

/// Whether a fact set has a fact, in a shard that its authority refers to.
pub open spec fn is_kept(
    set: PreparedCallableFactSetModel,
    fact: CallableFactModel,
    shard_ref: CasObjectModel,
) -> bool {
    exists|i: int, j: int| #[trigger] is_kept_at(set, fact, shard_ref, i, j)
}

/// Whether a fact is the one at a place of a shard.
pub open spec fn is_kept_at(
    set: PreparedCallableFactSetModel,
    fact: CallableFactModel,
    shard_ref: CasObjectModel,
    i: int,
    j: int,
) -> bool {
    &&& 0 <= i < set.fact_shards.len()
    &&& i < set.authority.fact_shards.len()
    &&& set.authority.fact_shards[i] == shard_ref
    &&& set.fact_shards[i].shard is Some
    &&& 0 <= j < set.fact_shards[i].shard->0.facts.len()
    &&& set.fact_shards[i].shard->0.facts[j] == fact
}

/// The member of a side.
pub open spec fn alias_on(s: ImpactQuerySelectionModel, side: ImpactSide) -> Seq<char> {
    match side {
        ImpactSide::Provider => s.pair.provider_member,
        ImpactSide::Consumer => s.pair.consumer_member,
    }
}

/// Whether a text names a declaration, or an owner around it.
pub open spec fn names(subject: Seq<char>, d: DeclarationFactModel) -> bool {
    ||| d.symbol_identity == subject
    ||| d.compiler_callable_id == Some(subject)
    ||| d.compiler_class_id == Some(subject)
    ||| d.owner_identity == subject
    ||| d.containment.contains(subject)
}

/// Whether a boundary of the descriptors names a declaration that the query found, in its
/// member and its compilation.
pub open spec fn touches(
    set: PreparedCallableFactSetModel,
    matched: Seq<Seq<char>>,
    row: BoundaryFactModel,
) -> bool {
    &&& "kotlin:descriptor-boundary:"@.is_prefix_of(row.provenance.input_fact_key)
    &&& row.subject is Some
    &&& exists|d: DeclarationFactModel, shard_ref: CasObjectModel|
        #![trigger is_kept(set, CallableFactModel::Declaration(d), shard_ref)]
        is_kept(set, CallableFactModel::Declaration(d), shard_ref) && matched.contains(d.fact_id)
            && d.provenance.member_alias == row.provenance.member_alias
            && d.provenance.compilation_id == row.provenance.compilation_id && names(
            row.subject->0,
            d,
        )
}

/// Whether a symbol is one of a family: it is the family between two marks.
pub open spec fn is_of_family(symbol: Seq<char>, family: Seq<char>) -> bool {
    exists|tail: Seq<char>| #[trigger] is_family_with(symbol, family, tail)
}

/// Whether a symbol is a family between two marks, with a tail, and the second mark stands
/// nowhere before.
pub open spec fn is_family_with(symbol: Seq<char>, family: Seq<char>, tail: Seq<char>) -> bool {
    let rest = family + "#jvm:"@ + tail;
    &&& symbol == "callable:"@ + rest
    &&& forall|j: int|
        0 <= j < family.len() ==> #[trigger] rest.subrange(j, j + "#jvm:"@.len()) != "#jvm:"@
}

/// Whether a boundary is about a subject by what it says itself.
pub open spec fn says_subject(row: BoundaryFactModel, subject: KotlinImpactSubjectModel) -> bool {
    match subject {
        KotlinImpactSubjectModel::FullSymbol { symbol_identity, .. } => row.subject == Some(
            symbol_identity,
        ),
        KotlinImpactSubjectModel::CallableFamily { callable_id } => match row.subject {
            Some(text) => text == callable_id || is_of_family(text, callable_id),
            None => false,
        },
        _ => false,
    }
}

/// Whether a fact of the set, on a side of the pair, is about the subject: the query found it,
/// or it is a boundary that is about the subject, or about what the query found.
pub open spec fn concerns(
    set: PreparedCallableFactSetModel,
    trace: CallableQueryTraceModel,
    s: ImpactQuerySelectionModel,
    side: ImpactSide,
    fact: CallableFactModel,
    shard_ref: CasObjectModel,
) -> bool {
    &&& is_kept(set, fact, shard_ref)
    &&& fact.provenance().member_alias == alias_on(s, side)
    &&& match fact {
        CallableFactModel::Boundary(row) if !(s.subject is Token) => says_subject(row, s.subject)
            || touches(set, trace.matched_fact_ids, row),
        _ => trace.matched_fact_ids.contains(fact.fact_id()),
    }
}

/// Whether the descriptors of a member of the set are not complete.
pub open spec fn lacks_descriptors(set: PreparedCallableFactSetModel, alias: Seq<char>) -> bool {
    exists|i: int|
        0 <= i < set.authority.members.len() && (#[trigger] set.authority.members[i]).member_alias
            == alias && (set.authority.members[i].compilations.len() == 0 || exists|j: int|
            0 <= j < set.authority.members[i].compilations.len() && (
            #[trigger] set.authority.members[i].compilations[j]).descriptor_coverage
                != GraphCoverage::CompleteSupportedSubset)
}

/// Whether something is to be done about a whole member of a side.
pub open spec fn is_about_side(
    s: ImpactQuerySelectionModel,
    side: ImpactSide,
    o: ImpactObligationModel,
) -> bool {
    o.member_alias == Some(alias_on(s, side)) && o.fact_id is None && o.required_check is None
}

/// Whether something is to be done about no member in particular.
pub open spec fn is_about_all(o: ImpactObligationModel) -> bool {
    o.member_alias is None && o.fact_id is None && o.required_check is None
}

/// Whether something is to be done about a fact of a side.
pub open spec fn is_about_fact(
    s: ImpactQuerySelectionModel,
    side: ImpactSide,
    fact: CallableFactModel,
    o: ImpactObligationModel,
) -> bool {
    o.member_alias == Some(alias_on(s, side)) && o.fact_id == Some(fact.fact_id())
}

/// Whether a fact by itself leaves something to be done.
pub open spec fn asks_for(fact: CallableFactModel, o: ImpactObligationModel) -> bool {
    match fact {
        CallableFactModel::Declaration(row) => !row.exact_eligible && o.code
            == ImpactObligationCode::VerifyDeclarationEvidence && o.required_check is None,
        CallableFactModel::Use(row) => !row.exact_eligible && o.code
            == ImpactObligationCode::VerifyUseEvidence && o.required_check is None,
        CallableFactModel::Boundary(row) => {
            ||| o.code == ImpactObligationCode::VerifyRelatedBoundary && o.required_check is None
            ||| o.code == ImpactObligationCode::VerifyBoundaryCheck && o.required_check is Some
                && row.required_checks.contains(o.required_check->0)
        },
    }
}

/// Whether no fact of a side is about the subject, or no declaration.
pub open spec fn finds_nothing(
    set: PreparedCallableFactSetModel,
    trace: CallableQueryTraceModel,
    s: ImpactQuerySelectionModel,
    side: ImpactSide,
    declarations_only: bool,
) -> bool {
    forall|fact: CallableFactModel, shard_ref: CasObjectModel| #[trigger]
        concerns(set, trace, s, side, fact, shard_ref) ==> declarations_only && !(fact
            is Declaration)
}

/// Whether two declarations of a side are about the subject.
pub open spec fn finds_several(
    set: PreparedCallableFactSetModel,
    trace: CallableQueryTraceModel,
    s: ImpactQuerySelectionModel,
    side: ImpactSide,
) -> bool {
    exists|
        a: CallableFactModel,
        x: CasObjectModel,
        b: CallableFactModel,
        y: CasObjectModel,
    |
        #![trigger concerns(set, trace, s, side, a, x), concerns(set, trace, s, side, b, y)]
        concerns(set, trace, s, side, a, x) && concerns(set, trace, s, side, b, y) && a
            is Declaration && b is Declaration && a.fact_id() != b.fact_id()
}

/// Whether something is to be done about a side as a whole, by what was found there.
pub open spec fn is_owed_by_side(
    set: PreparedCallableFactSetModel,
    trace: CallableQueryTraceModel,
    s: ImpactQuerySelectionModel,
    side: ImpactSide,
    o: ImpactObligationModel,
) -> bool {
    is_about_side(s, side, o) && match o.code {
        ImpactObligationCode::SubjectNotObservedInMember => finds_nothing(
            set,
            trace,
            s,
            side,
            false,
        ),
        ImpactObligationCode::ProjectedDeclarationNotObserved => finds_nothing(
            set,
            trace,
            s,
            side,
            true,
        ),
        ImpactObligationCode::DisambiguateOverloadSet => finds_several(set, trace, s, side),
        ImpactObligationCode::CompleteDescriptorScope => s.subject is CallableFamily
            && lacks_descriptors(set, alias_on(s, side)),
        _ => false,
    }
}

/// Whether something is to be done about the impact as a whole.
pub open spec fn is_owed_by_all(
    set: PreparedCallableFactSetModel,
    s: ImpactQuerySelectionModel,
    o: ImpactObligationModel,
) -> bool {
    is_about_all(o) && match o.code {
        ImpactObligationCode::VerifyFactSetBoundaryScope => set.authority.completeness.certainty
            == CallableFactSetCertainty::Unsure,
        ImpactObligationCode::VerifyRelationshipAuthority => s.pair.relationship_authority
            != RelationshipAuthority::VerifiedSameSnapshotCompilationDependency,
        ImpactObligationCode::ResolveNavigationSubject => s.subject is Token,
        ImpactObligationCode::NarrowOrExpandQuery => s.findings_truncated
            || s.source_windows_truncated,
        _ => false,
    }
}

/// Whether something is to be done about a fact.
pub open spec fn is_owed_by_fact(
    set: PreparedCallableFactSetModel,
    trace: CallableQueryTraceModel,
    s: ImpactQuerySelectionModel,
    o: ImpactObligationModel,
) -> bool {
    exists|side: ImpactSide, fact: CallableFactModel, shard_ref: CasObjectModel|
        #[trigger] concerns(set, trace, s, side, fact, shard_ref) && is_about_fact(
            s,
            side,
            fact,
            o,
        ) && asks_for(fact, o)
}

/// Whether something is to be done, by what the facts say of the subject.
pub open spec fn is_owed(
    set: PreparedCallableFactSetModel,
    trace: CallableQueryTraceModel,
    s: ImpactQuerySelectionModel,
    o: ImpactObligationModel,
) -> bool {
    ||| is_owed_by_side(set, trace, s, ImpactSide::Provider, o)
    ||| is_owed_by_side(set, trace, s, ImpactSide::Consumer, o)
    ||| is_owed_by_all(set, s, o)
    ||| is_owed_by_fact(set, trace, s, o)
}

proof fn entries_are_kept(set: PreparedCallableFactSetModel, n: nat, e: FactEntryModel)
    requires
        n <= set.fact_shards.len(),
        n <= set.authority.fact_shards.len(),
        entries_of(set, n) is Ok,
    ensures
        entries_of(set, n)->Ok_0.contains(e) <==> exists|i: int, j: int|
            i < n && #[trigger] is_kept_at(set, e.fact, e.shard_ref, i, j),
    decreases n,
{
    let all = entries_of(set, n)->Ok_0;
    if n > 0 {
        let before = entries_of(set, (n - 1) as nat)->Ok_0;
        let shard = set.fact_shards[n - 1].shard->0;
        entries_are_kept(set, (n - 1) as nat, e);
        assert(all.len() == before.len() + shard.facts.len());
        if all.contains(e) {
            let k = choose|k: int| 0 <= k < all.len() && all[k] == e;
            if k < before.len() {
                assert(before[k] == e);
                assert(before.contains(e));
            } else {
                assert(is_kept_at(set, e.fact, e.shard_ref, n - 1, k - before.len()));
            }
        }
        if before.contains(e) {
            let k = choose|k: int| 0 <= k < before.len() && before[k] == e;
            assert(all[k] == e);
        }
        assert forall|i: int, j: int|
            i < n && #[trigger] is_kept_at(set, e.fact, e.shard_ref, i, j) implies all.contains(e) by {
            if i == n - 1 {
                assert(all[before.len() + j] == e);
            }
        }
    }
}

proof fn read_entries_are_kept(set: PreparedCallableFactSetModel, e: FactEntryModel)
    requires
        entries_read(set) is Ok,
    ensures
        entries_read(set)->Ok_0.contains(e) == is_kept(set, e.fact, e.shard_ref),
{
    let n = shard_count(set);
    entries_are_kept(set, n, e);
    if is_kept(set, e.fact, e.shard_ref) {
        let (i, j) = choose|i: int, j: int| #[trigger]
            is_kept_at(set, e.fact, e.shard_ref, i, j);
        assert(i < n && is_kept_at(set, e.fact, e.shard_ref, i, j));
    }
}

proof fn texts_are_keys(t: Seq<Seq<char>>, text: Seq<char>)
    ensures
        has_key::<String>(t, text) == t.contains(text),
{
    if has_key::<String>(t, text) {
        let k = choose|k: int| 0 <= k < t.len() && String::key(#[trigger] t[k]) == text;
        assert(t[k] == text);
    }
    if t.contains(text) {
        let k = choose|k: int| 0 <= k < t.len() && t[k] == text;
        assert(String::key(t[k]) == text);
    }
}

proof fn families_are_seen(symbol: Seq<char>, family: Seq<char>)
    ensures
        (callable_family(symbol) == Some(family)) == is_of_family(symbol, family),
{
    let p = "callable:"@;
    let m = "#jvm:"@;
    let rest = after_prefix(symbol, p);
    found_is_first(rest, m);
    if callable_family(symbol) == Some(family) {
        let i = found(rest, m)->0;
        let tail = rest.skip(i + m.len());
        assert(symbol =~= p + rest);
        assert(rest =~= family + m + tail) by {
            assert(rest.subrange(i, i + m.len()) == m);
            assert forall|k: int| 0 <= k < m.len() implies #[trigger] rest[i + k] == m[k] by {
                assert(rest.subrange(i, i + m.len())[k] == rest[i + k]);
            }
            assert forall|k: int| 0 <= k < rest.len() implies rest[k] == (family + m + tail)[k] by {
                if i <= k < i + m.len() {
                    assert(rest[i + (k - i)] == m[k - i]);
                }
            }
        }
        assert(is_family_with(symbol, family, tail));
    }
    if is_of_family(symbol, family) {
        let tail = choose|tail: Seq<char>| #[trigger] is_family_with(symbol, family, tail);
        let all = family + m + tail;
        let n: int = family.len() as int;
        assert(symbol.take(p.len() as int) =~= p);
        assert(rest =~= all);
        assert(all.subrange(n, n + m.len()) =~= m);
        assert(rest.subrange(n, n + m.len()) == m);
        let i = found(rest, m)->0;
        if i < family.len() {
            assert(rest.subrange(i, i + m.len()) != m);
        }
        if i > family.len() {
            assert(rest.subrange(n, n + m.len()) != m);
        }
        assert(rest.take(i) =~= family);
    }
}

/// What a selection rests on.
spec fn is_scope(
    set: PreparedCallableFactSetModel,
    s: ImpactQuerySelectionModel,
    scope: ImpactScope,
) -> bool {
    &&& entries_read(set) is Ok
    &&& scope.entries == entries_read(set)->Ok_0
    &&& scope.pair == s.pair
    &&& scope.provider.member_alias == s.pair.provider_member
    &&& scope.consumer.member_alias == s.pair.consumer_member
}

proof fn boundaries_touch(
    set: PreparedCallableFactSetModel,
    entries: Seq<FactEntryModel>,
    alias: Seq<char>,
    matched: Seq<Seq<char>>,
    row: BoundaryFactModel,
)
    requires
        entries_read(set) is Ok,
        entries == entries_read(set)->Ok_0,
        row.provenance.member_alias == alias,
    ensures
        boundary_related(entries, alias, matched, row) == touches(set, matched, row),
{
    let p = "kotlin:descriptor-boundary:"@;
    assert(has_prefix(row.provenance.input_fact_key, p) == p.is_prefix_of(
        row.provenance.input_fact_key,
    )) by {
        let key = row.provenance.input_fact_key;
        if has_prefix(key, p) {
            assert(p =~= key.take(p.len() as int));
        }
        if p.is_prefix_of(key) {
            assert(key.take(p.len() as int) =~= p);
        }
    }
    if boundary_related(entries, alias, matched, row) {
        let i = choose|i: int|
            0 <= i < entries.len() && is_bounded_declaration(
                #[trigger] entries[i],
                alias,
                matched,
                row,
            );
        let d = entries[i].fact->Declaration_0;
        read_entries_are_kept(set, entries[i]);
        texts_are_keys(matched, d.fact_id);
        texts_are_keys(d.containment, row.subject->0);
        assert(is_kept(set, CallableFactModel::Declaration(d), entries[i].shard_ref));
        assert(names(row.subject->0, d));
    }
    if touches(set, matched, row) {
        let (d, shard_ref) = choose|d: DeclarationFactModel, shard_ref: CasObjectModel|
            #![trigger is_kept(set, CallableFactModel::Declaration(d), shard_ref)]
            is_kept(set, CallableFactModel::Declaration(d), shard_ref) && matched.contains(
                d.fact_id,
            ) && d.provenance.member_alias == row.provenance.member_alias
                && d.provenance.compilation_id == row.provenance.compilation_id && names(
                row.subject->0,
                d,
            );
        let e = FactEntryModel { fact: CallableFactModel::Declaration(d), shard_ref };
        read_entries_are_kept(set, e);
        texts_are_keys(matched, d.fact_id);
        texts_are_keys(d.containment, row.subject->0);
        let i = choose|i: int| 0 <= i < entries.len() && entries[i] == e;
        assert(is_bounded_declaration(entries[i], alias, matched, row));
    }
}

proof fn side_is_concerned(
    side: ImpactSide,
    alias: Seq<char>,
    subject: KotlinImpactSubjectModel,
    entries: Seq<FactEntryModel>,
    matched: Seq<Seq<char>>,
    n: nat,
    c: CandidateModel,
)
    requires
        n <= entries.len(),
    ensures
        side_candidates(side, alias, subject, entries, matched, n).contains(c) <==> c.side == side
            && c.member_alias == alias && c.fact.provenance().member_alias == alias && is_match(
            c.fact,
            subject,
            entries,
            alias,
            matched,
        ) && exists|k: int|
            0 <= k < n && #[trigger] entries[k] == (FactEntryModel {
                fact: c.fact,
                shard_ref: c.shard_ref,
            }),
    decreases n,
{
    let all = side_candidates(side, alias, subject, entries, matched, n);
    let e = FactEntryModel { fact: c.fact, shard_ref: c.shard_ref };
    if n > 0 {
        let before = side_candidates(side, alias, subject, entries, matched, (n - 1) as nat);
        side_is_concerned(side, alias, subject, entries, matched, (n - 1) as nat, c);
        if all.contains(c) {
            let k = choose|k: int| 0 <= k < all.len() && all[k] == c;
            if k < before.len() {
                assert(before[k] == c);
                assert(before.contains(c));
            } else {
                assert(entries[n - 1] == e);
            }
        }
        if before.contains(c) {
            let k = choose|k: int| 0 <= k < before.len() && before[k] == c;
            assert(all[k] == c);
        }
        if exists|k: int| 0 <= k < n && #[trigger] entries[k] == e {
            let k = choose|k: int| 0 <= k < n && #[trigger] entries[k] == e;
            if k < n - 1 {
                assert(0 <= k < n - 1 && entries[k] == e);
            } else if c.side == side && c.member_alias == alias
                && c.fact.provenance().member_alias == alias && is_match(
                c.fact,
                subject,
                entries,
                alias,
                matched,
            ) {
                assert(all[before.len() as int] == c);
            }
        }
    }
}

/// The candidates are the facts of both sides that are about the subject.
#[verifier::opaque]
spec fn are_candidates(
    set: PreparedCallableFactSetModel,
    trace: CallableQueryTraceModel,
    s: ImpactQuerySelectionModel,
    candidates: Seq<CandidateModel>,
) -> bool {
    forall|c: CandidateModel| #[trigger]
        candidates.contains(c) <==> c.member_alias == alias_on(s, c.side) && concerns(
            set,
            trace,
            s,
            c.side,
            c.fact,
            c.shard_ref,
        )
}

proof fn candidates_are_concerned(
    set: PreparedCallableFactSetModel,
    trace: CallableQueryTraceModel,
    s: ImpactQuerySelectionModel,
    scope: ImpactScope,
)
    requires
        is_scope(set, s, scope),
    ensures
        are_candidates(set, trace, s, candidates_of(scope, s.subject, trace.matched_fact_ids)),
{
    broadcast use vstd::seq_lib::group_to_multiset_ensures;

    reveal(are_candidates);
    let matched = trace.matched_fact_ids;
    let entries = scope.entries;
    let n = entries.len();
    let a = side_candidates(
        ImpactSide::Provider,
        scope.provider.member_alias,
        s.subject,
        entries,
        matched,
        n,
    );
    let b = side_candidates(
        ImpactSide::Consumer,
        scope.consumer.member_alias,
        s.subject,
        entries,
        matched,
        n,
    );
    let all = candidates_of(scope, s.subject, matched);
    order::sorted_is_sorted::<Candidate>(a + b);
    assert forall|c: CandidateModel| #[trigger] all.contains(c) <==> c.member_alias == alias_on(
        s,
        c.side,
    ) && concerns(set, trace, s, c.side, c.fact, c.shard_ref) by {
        let alias = alias_on(s, c.side);
        let e = FactEntryModel { fact: c.fact, shard_ref: c.shard_ref };
        assert(all.to_multiset().count(c) == (a + b).to_multiset().count(c));
        assert(all.contains(c) == (a + b).contains(c));
        assert((a + b).contains(c) == (a.contains(c) || b.contains(c))) by {
            if (a + b).contains(c) {
                let k = choose|k: int| 0 <= k < (a + b).len() && (a + b)[k] == c;
                if k < a.len() {
                    assert(a[k] == c);
                } else {
                    assert(b[k - a.len()] == c);
                }
            }
            if a.contains(c) {
                let k = choose|k: int| 0 <= k < a.len() && a[k] == c;
                assert((a + b)[k] == c);
            }
            if b.contains(c) {
                let k = choose|k: int| 0 <= k < b.len() && b[k] == c;
                assert((a + b)[a.len() + k] == c);
            }
        }
        side_is_concerned(
            ImpactSide::Provider,
            scope.provider.member_alias,
            s.subject,
            entries,
            matched,
            n,
            c,
        );
        side_is_concerned(
            ImpactSide::Consumer,
            scope.consumer.member_alias,
            s.subject,
            entries,
            matched,
            n,
            c,
        );
        read_entries_are_kept(set, e);
        assert(entries.contains(e) == exists|k: int| 0 <= k < n && #[trigger] entries[k] == e);
        texts_are_keys(matched, c.fact.fact_id());
        if c.fact.provenance().member_alias == alias {
            if let CallableFactModel::Boundary(row) = c.fact {
                boundaries_touch(set, entries, alias, matched, row);
                if let KotlinImpactSubjectModel::CallableFamily { callable_id } = s.subject {
                    if let Some(text) = row.subject {
                        families_are_seen(text, callable_id);
                    }
                }
            }
            assert(is_match(c.fact, s.subject, entries, alias, matched) == match c.fact {
                CallableFactModel::Boundary(row) if !(s.subject is Token) => says_subject(
                    row,
                    s.subject,
                ) || touches(set, matched, row),
                _ => matched.contains(c.fact.fact_id()),
            });
        }
    }
}

/// What a candidate asks for.
spec fn candidate_asks(c: CandidateModel, o: ImpactObligationModel) -> bool {
    o.member_alias == Some(c.member_alias) && o.fact_id == Some(c.fact.fact_id()) && asks_for(
        c.fact,
        o,
    )
}

proof fn pushed_contains<A>(s: Seq<A>, x: A, y: A)
    ensures
        s.push(x).contains(y) == (s.contains(y) || x == y),
{
    let t = s.push(x);
    if t.contains(y) {
        let k = choose|k: int| 0 <= k < t.len() && t[k] == y;
        if k < s.len() {
            assert(s[k] == y);
        }
    }
    if s.contains(y) {
        let k = choose|k: int| 0 <= k < s.len() && s[k] == y;
        assert(t[k] == y);
    }
    assert(t[s.len() as int] == x);
}

proof fn checks_are_asked(
    before: Seq<ImpactObligationModel>,
    alias: Seq<char>,
    row: BoundaryFactModel,
    n: nat,
    o: ImpactObligationModel,
)
    requires
        n <= row.required_checks.len(),
    ensures
        checks_obliged(before, alias, row, n).contains(o) <==> before.contains(o) || (o.code
            == ImpactObligationCode::VerifyBoundaryCheck && o.member_alias == Some(alias)
            && o.fact_id == Some(row.fact_id) && o.required_check is Some && exists|k: int|
            0 <= k < n && #[trigger] row.required_checks[k] == o.required_check->0),
    decreases n,
{
    if n > 0 {
        let rest = checks_obliged(before, alias, row, (n - 1) as nat);
        let x = ImpactObligationModel {
            code: ImpactObligationCode::VerifyBoundaryCheck,
            member_alias: Some(alias),
            fact_id: Some(row.fact_id),
            required_check: Some(row.required_checks[n - 1]),
        };
        checks_are_asked(before, alias, row, (n - 1) as nat, o);
        pushed_contains(rest, x, o);
        if x == o {
            assert(row.required_checks[n - 1] == o.required_check->0);
        }
        if o.required_check is Some && (exists|k: int|
            0 <= k < n && #[trigger] row.required_checks[k] == o.required_check->0) {
            let k = choose|k: int|
                0 <= k < n && #[trigger] row.required_checks[k] == o.required_check->0;
            if k < n - 1 {
                assert(0 <= k < n - 1 && row.required_checks[k] == o.required_check->0);
            }
        }
    }
}

proof fn fact_is_asked(
    before: Seq<ImpactObligationModel>,
    c: CandidateModel,
    o: ImpactObligationModel,
)
    ensures
        fact_obliged(before, c).contains(o) <==> before.contains(o) || candidate_asks(c, o),
{
    match c.fact {
        CallableFactModel::Declaration(row) => {
            pushed_contains(
                before,
                about_fact(
                    ImpactObligationCode::VerifyDeclarationEvidence,
                    c.member_alias,
                    row.fact_id,
                ),
                o,
            );
        },
        CallableFactModel::Use(row) => {
            pushed_contains(
                before,
                about_fact(ImpactObligationCode::VerifyUseEvidence, c.member_alias, row.fact_id),
                o,
            );
        },
        CallableFactModel::Boundary(row) => {
            let x = about_fact(
                ImpactObligationCode::VerifyRelatedBoundary,
                c.member_alias,
                row.fact_id,
            );
            let n = row.required_checks.len();
            pushed_contains(before, x, o);
            checks_are_asked(before.push(x), c.member_alias, row, n, o);
            if o.required_check is Some {
                let check = o.required_check->0;
                assert(row.required_checks.contains(check) == exists|k: int|
                    0 <= k < n && #[trigger] row.required_checks[k] == check);
            }
        },
    }
}

proof fn facts_are_asked(
    before: Seq<ImpactObligationModel>,
    candidates: Seq<CandidateModel>,
    n: nat,
    o: ImpactObligationModel,
)
    requires
        n <= candidates.len(),
    ensures
        facts_obliged(before, candidates, n).contains(o) <==> before.contains(o) || exists|k: int|
            0 <= k < n && candidate_asks(#[trigger] candidates[k], o),
    decreases n,
{
    if n > 0 {
        facts_are_asked(before, candidates, (n - 1) as nat, o);
        fact_is_asked(
            facts_obliged(before, candidates, (n - 1) as nat),
            candidates[n - 1],
            o,
        );
        if exists|k: int| 0 <= k < n && candidate_asks(#[trigger] candidates[k], o) {
            let k = choose|k: int| 0 <= k < n && candidate_asks(#[trigger] candidates[k], o);
            if k < n - 1 {
                assert(0 <= k < n - 1 && candidate_asks(candidates[k], o));
            }
        }
        if exists|k: int| 0 <= k < n - 1 && candidate_asks(#[trigger] candidates[k], o) {
            let k = choose|k: int| 0 <= k < n - 1 && candidate_asks(#[trigger] candidates[k], o);
            assert(0 <= k < n && candidate_asks(candidates[k], o));
        }
    }
}

proof fn filtered<A>(s: Seq<A>, pred: spec_fn(A) -> bool, x: A)
    ensures
        s.filter(pred).contains(x) == (s.contains(x) && pred(x)),
{
    let f = s.filter(pred);
    if f.contains(x) {
        let k = choose|k: int| 0 <= k < f.len() && f[k] == x;
        s.lemma_filter_pred(pred, k);
        s.lemma_filter_contains_rev(pred, x);
    }
    if s.contains(x) && pred(x) {
        let k = choose|k: int| 0 <= k < s.len() && s[k] == x;
        s.lemma_filter_contains(pred, k);
    }
}

proof fn filtering_keeps_apart(s: Seq<CandidateModel>, pred: spec_fn(CandidateModel) -> bool)
    requires
        !repeats_fact(s),
    ensures
        !repeats_fact(s.filter(pred)),
    decreases s.len(),
{
    reveal(Seq::filter);
    if s.len() > 0 {
        let before = s.drop_last();
        assert(!repeats_fact(before)) by {
            if repeats_fact(before) {
                let (i, j) = choose|i: int, j: int|
                    0 <= i < j < before.len() && (#[trigger] before[i]).fact.fact_id() == (
                    #[trigger] before[j]).fact.fact_id();
                assert(s[i] == before[i] && s[j] == before[j]);
            }
        }
        filtering_keeps_apart(before, pred);
        let f = before.filter(pred);
        let g = s.filter(pred);
        if repeats_fact(g) {
            let (i, j) = choose|i: int, j: int|
                0 <= i < j < g.len() && (#[trigger] g[i]).fact.fact_id() == (
                #[trigger] g[j]).fact.fact_id();
            if j < f.len() {
                assert(f[i] == g[i] && f[j] == g[j]);
            } else {
                assert(f[i] == g[i]);
                assert(f.contains(f[i]));
                filtered(before, pred, f[i]);
                let k = choose|k: int| 0 <= k < before.len() && before[k] == f[i];
                assert(s[k].fact.fact_id() == s[s.len() - 1].fact.fact_id());
            }
        }
    }
}

proof fn side_counts(
    set: PreparedCallableFactSetModel,
    trace: CallableQueryTraceModel,
    s: ImpactQuerySelectionModel,
    candidates: Seq<CandidateModel>,
    side: ImpactSide,
)
    requires
        are_candidates(set, trace, s, candidates),
        !repeats_fact(candidates),
    ensures
        ({
            let mine = of_side(candidates, side);
            let declared = of_kind(mine, CallableFactKind::Declaration);
            &&& (mine.len() == 0) == finds_nothing(set, trace, s, side, false)
            &&& (declared.len() == 0) == finds_nothing(set, trace, s, side, true)
            &&& (declared.len() > 1) == finds_several(set, trace, s, side)
        }),
{
    reveal(are_candidates);
    let on_side = |c: CandidateModel| c.side == side;
    let is_declaration = |c: CandidateModel| c.fact.kind() == CallableFactKind::Declaration;
    let mine = of_side(candidates, side);
    let declared = of_kind(mine, CallableFactKind::Declaration);
    filtering_keeps_apart(candidates, on_side);
    filtering_keeps_apart(mine, is_declaration);
    assert forall|c: CandidateModel| #[trigger] mine.contains(c) == (candidates.contains(c)
        && c.side == side) by {
        filtered(candidates, on_side, c);
    }
    assert forall|c: CandidateModel| #[trigger] declared.contains(c) == (mine.contains(c)
        && c.fact is Declaration) by {
        filtered(mine, is_declaration, c);
    }
    if mine.len() > 0 {
        assert(mine.contains(mine[0]));
        let c = mine[0];
        assert(concerns(set, trace, s, side, c.fact, c.shard_ref));
    }
    if declared.len() > 0 {
        assert(declared.contains(declared[0]));
        let c = declared[0];
        assert(mine.contains(c));
        assert(concerns(set, trace, s, side, c.fact, c.shard_ref));
    }
    assert forall|fact: CallableFactModel, shard_ref: CasObjectModel| #[trigger]
        concerns(set, trace, s, side, fact, shard_ref) implies mine.len() > 0 && (fact
        is Declaration ==> declared.len() > 0) by {
        let c = CandidateModel { side, member_alias: alias_on(s, side), fact, shard_ref };
        assert(candidates.contains(c));
        assert(mine.contains(c));
        if fact is Declaration {
            assert(declared.contains(c));
        }
    }
    if declared.len() > 1 {
        let (a, b) = (declared[0], declared[1]);
        assert(declared.contains(a) && declared.contains(b));
        assert(mine.contains(a) && mine.contains(b));
        assert(concerns(set, trace, s, side, a.fact, a.shard_ref));
        assert(concerns(set, trace, s, side, b.fact, b.shard_ref));
        assert(a.fact.fact_id() != b.fact.fact_id());
    }
    if finds_several(set, trace, s, side) {
        let (a, x, b, y) = choose|
            a: CallableFactModel,
            x: CasObjectModel,
            b: CallableFactModel,
            y: CasObjectModel,
        |
            #![trigger concerns(set, trace, s, side, a, x), concerns(set, trace, s, side, b, y)]
            concerns(set, trace, s, side, a, x) && concerns(set, trace, s, side, b, y) && a
                is Declaration && b is Declaration && a.fact_id() != b.fact_id();
        let alias = alias_on(s, side);
        let c = CandidateModel { side, member_alias: alias, fact: a, shard_ref: x };
        let d = CandidateModel { side, member_alias: alias, fact: b, shard_ref: y };
        assert(candidates.contains(c) && candidates.contains(d));
        assert(mine.contains(c) && mine.contains(d));
        assert(declared.contains(c) && declared.contains(d));
        let i = choose|i: int| 0 <= i < declared.len() && declared[i] == c;
        let j = choose|j: int| 0 <= j < declared.len() && declared[j] == d;
        assert(i != j);
    }
}

proof fn member_lacks(
    set: PreparedCallableFactSetModel,
    member: CallableMemberBindingModel,
    alias: Seq<char>,
)
    requires
        crate::thread_impact::member_selected(set, alias) == Ok::<
            CallableMemberBindingModel,
            ErrorModel,
        >(member),
    ensures
        member.member_alias == alias,
        descriptor_scope_complete(member) == !lacks_descriptors(set, alias),
{
    let members = set.authority.members;
    let pred = |m: CallableMemberBindingModel| m.member_alias == alias;
    let found = members_with(members, alias);
    members.lemma_filter_pred(pred, 0);
    assert(found.contains(found[0]));
    filtered(members, pred, member);
    if !descriptor_scope_complete(member) {
        let i = choose|i: int| 0 <= i < members.len() && members[i] == member;
        assert(members[i].member_alias == alias);
        if member.compilations.len() > 0 {
            let j = choose|j: int|
                0 <= j < member.compilations.len() && (
                #[trigger] member.compilations[j]).descriptor_coverage
                    != GraphCoverage::CompleteSupportedSubset;
            assert(members[i].compilations[j] == member.compilations[j]);
        }
    }
    if lacks_descriptors(set, alias) {
        let i = choose|i: int|
            0 <= i < members.len() && (#[trigger] members[i]).member_alias == alias && (
            members[i].compilations.len() == 0 || exists|j: int|
                0 <= j < members[i].compilations.len() && (
                #[trigger] members[i].compilations[j]).descriptor_coverage
                    != GraphCoverage::CompleteSupportedSubset);
        members.lemma_filter_contains(pred, i);
        let k = choose|k: int| 0 <= k < found.len() && found[k] == members[i];
        assert(k == 0);
    }
}

/// The parts of an obligation tell it from every other one.
proof fn obligations_are_told_apart()
    ensures
        forall|x: ImpactObligationModel, y: ImpactObligationModel| #[trigger]
            ImpactObligation::parts(x) == #[trigger] ImpactObligation::parts(y) ==> x == y,
{
    assert forall|x: ImpactObligationModel, y: ImpactObligationModel| #[trigger]
        ImpactObligation::parts(x) == #[trigger] ImpactObligation::parts(y) implies x == y by {
        let a = ImpactObligation::parts(x);
        let b = ImpactObligation::parts(y);
        assert(a[0] == b[0] && a[1] == b[1] && a[2] == b[2] && a[3] == b[3]);
        assert(a[0] == PartModel::Num(x.code.rank()) && b[0] == PartModel::Num(y.code.rank()));
        assert(x.code.rank() == y.code.rank());
        assert(x.code == y.code);
        assert(a[1] == order::text_part(x.member_alias) && b[1] == order::text_part(y.member_alias));
        assert(a[2] == order::text_part(x.fact_id) && b[2] == order::text_part(y.fact_id));
        assert(a[3] == order::text_part(x.required_check) && b[3] == order::text_part(
            y.required_check,
        ));
    }
}

proof fn narrowed_contains(
    obligations: Seq<ImpactObligationModel>,
    truncated: bool,
    o: ImpactObligationModel,
)
    requires
        order::is_table::<ImpactObligation>(obligations),
    ensures
        order::is_table::<ImpactObligation>(narrowed(obligations, truncated)),
        narrowed(obligations, truncated).contains(o) == (obligations.contains(o) || truncated && o
            == about_all(ImpactObligationCode::NarrowOrExpandQuery)),
{
    let x = about_all(ImpactObligationCode::NarrowOrExpandQuery);
    if truncated {
        order::entered_keeps_table::<ImpactObligation>(obligations, x);
        obligations_are_told_apart();
        let e = order::entered::<ImpactObligation>(obligations, x);
        let k = choose|k: int|
            0 <= k < e.len() && ImpactObligation::parts(#[trigger] e[k])
                == ImpactObligation::parts(x);
        assert(e[k] == x);
        if e.contains(o) {
            let j = choose|j: int| 0 <= j < e.len() && e[j] == o;
            assert(e[j] == x || obligations.contains(e[j]));
        }
    }
}

proof fn members_are_owed(
    set: PreparedCallableFactSetModel,
    trace: CallableQueryTraceModel,
    s: ImpactQuerySelectionModel,
    candidates: Seq<CandidateModel>,
    before: Seq<ImpactObligationModel>,
    side: ImpactSide,
    member: CallableMemberBindingModel,
    o: ImpactObligationModel,
)
    requires
        are_candidates(set, trace, s, candidates),
        !repeats_fact(candidates),
        crate::thread_impact::member_selected(set, alias_on(s, side)) == Ok::<
            CallableMemberBindingModel,
            ErrorModel,
        >(member),
    ensures
        member_obligations(before, member, s.subject, of_side(candidates, side)).contains(o)
            <==> before.contains(o) || is_owed_by_side(set, trace, s, side, o),
{
    let alias = alias_on(s, side);
    let mine = of_side(candidates, side);
    let declared = of_kind(mine, CallableFactKind::Declaration).len();
    side_counts(set, trace, s, candidates, side);
    member_lacks(set, member, alias);
    let x1 = about_member(ImpactObligationCode::SubjectNotObservedInMember, alias);
    let x2 = about_member(ImpactObligationCode::ProjectedDeclarationNotObserved, alias);
    let x3 = about_member(ImpactObligationCode::DisambiguateOverloadSet, alias);
    let x4 = about_member(ImpactObligationCode::CompleteDescriptorScope, alias);
    let a = added_if(before, mine.len() == 0, x1);
    let b = added_if(a, declared == 0, x2);
    let c = added_if(b, declared > 1, x3);
    pushed_contains(before, x1, o);
    pushed_contains(a, x2, o);
    pushed_contains(b, x3, o);
    pushed_contains(c, x4, o);
}

/// What the parts of a selection are made of.
proof fn selected_from(
    set: PreparedCallableFactSetModel,
    request: ThreadImpactRequestModel,
    trace: CallableQueryTraceModel,
    s: ImpactQuerySelectionModel,
) -> (r: (ImpactScope, Seq<CandidateModel>))
    requires
        impact_selected(set, request, trace) == Ok::<ImpactQuerySelectionModel, ErrorModel>(s),
    ensures
        is_scope(set, s, r.0),
        request_normalized(set, request) is Ok,
        s.subject == request_normalized(set, request)->Ok_0.subject,
        scoped(set, request_normalized(set, request)->Ok_0) == Ok::<ImpactScope, ErrorModel>(r.0),
        r.1 == candidates_of(r.0, s.subject, trace.matched_fact_ids),
        are_candidates(set, trace, s, r.1),
        !repeats_fact(r.1),
        parts_selected(set, request_normalized(set, request)->Ok_0, r.0, r.1) is Ok,
        s == crate::thread_impact::composed(
            set,
            request_normalized(set, request)->Ok_0,
            r.0,
            trace,
            parts_selected(set, request_normalized(set, request)->Ok_0, r.0, r.1)->Ok_0,
        ),
        crate::thread_impact::member_selected(set, s.pair.provider_member) == Ok::<
            CallableMemberBindingModel,
            ErrorModel,
        >(r.0.provider),
        crate::thread_impact::member_selected(set, s.pair.consumer_member) == Ok::<
            CallableMemberBindingModel,
            ErrorModel,
        >(r.0.consumer),
{
    reveal(selection_of);
    let normal = request_normalized(set, request)->Ok_0;
    let scope = scoped(set, normal)->Ok_0;
    let candidates = candidates_of(scope, normal.subject, trace.matched_fact_ids);
    member_lacks(set, scope.provider, scope.pair.provider_member);
    member_lacks(set, scope.consumer, scope.pair.consumer_member);
    assert(s.pair == scope.pair && s.subject == normal.subject);
    candidates_are_concerned(set, trace, s, scope);
    (scope, candidates)
}

/// What an impact leaves to be done is just what the facts about its subject ask for: every
/// declaration and every use that is not exact, every boundary with each of its checks, what
/// was not found or not found once in a member, and what the fact set, the relationship, the
/// subject and the budgets leave open.
pub proof fn obligations_are_what_is_owed(
    set: PreparedCallableFactSetModel,
    request: ThreadImpactRequestModel,
    trace: CallableQueryTraceModel,
    s: ImpactQuerySelectionModel,
    o: ImpactObligationModel,
)
    requires
        impact_selected(set, request, trace) == Ok::<ImpactQuerySelectionModel, ErrorModel>(s),
    ensures
        s.obligations.contains(o) <==> is_owed(set, trace, s, o),
{
    let (scope, candidates) = selected_from(set, request, trace, s);
    let arising = obligations_arising(set, scope, s.subject, candidates);
    obligations_are_told_apart();
    order::tables_of_the_same_records::<ImpactObligation>(arising, arising);
    let table = order::first_table::<ImpactObligation>(arising);
    let once = narrowed(table, s.findings_truncated);
    narrowed_contains(table, s.findings_truncated, o);
    narrowed_contains(once, s.source_windows_truncated, o);
    assert(s.obligations == narrowed(once, s.source_windows_truncated));
    assert(s.obligations.contains(o) <==> arising.contains(o) || (s.findings_truncated
        || s.source_windows_truncated) && o == about_all(
        ImpactObligationCode::NarrowOrExpandQuery,
    ));
    let nothing = Seq::<ImpactObligationModel>::empty();
    let a = member_obligations(
        nothing,
        scope.provider,
        s.subject,
        of_side(candidates, ImpactSide::Provider),
    );
    let b = member_obligations(
        a,
        scope.consumer,
        s.subject,
        of_side(candidates, ImpactSide::Consumer),
    );
    members_are_owed(
        set,
        trace,
        s,
        candidates,
        nothing,
        ImpactSide::Provider,
        scope.provider,
        o,
    );
    members_are_owed(set, trace, s, candidates, a, ImpactSide::Consumer, scope.consumer, o);
    let x1 = about_all(ImpactObligationCode::VerifyFactSetBoundaryScope);
    let x2 = about_all(ImpactObligationCode::VerifyRelationshipAuthority);
    let x3 = about_all(ImpactObligationCode::ResolveNavigationSubject);
    let c = added_if(
        b,
        set.authority.completeness.certainty == CallableFactSetCertainty::Unsure,
        x1,
    );
    let d = added_if(
        c,
        scope.pair.relationship_authority
            != RelationshipAuthority::VerifiedSameSnapshotCompilationDependency,
        x2,
    );
    let e = added_if(d, s.subject is Token, x3);
    pushed_contains(b, x1, o);
    pushed_contains(c, x2, o);
    pushed_contains(d, x3, o);
    facts_are_asked(e, candidates, candidates.len(), o);
    assert((exists|k: int| 0 <= k < candidates.len() && candidate_asks(#[trigger] candidates[k], o))
        == is_owed_by_fact(set, trace, s, o)) by {
        reveal(are_candidates);
        if exists|k: int| 0 <= k < candidates.len() && candidate_asks(#[trigger] candidates[k], o) {
            let k = choose|k: int|
                0 <= k < candidates.len() && candidate_asks(#[trigger] candidates[k], o);
            let c = candidates[k];
            assert(candidates.contains(c));
            assert(concerns(set, trace, s, c.side, c.fact, c.shard_ref));
        }
        if is_owed_by_fact(set, trace, s, o) {
            let (side, fact, shard_ref) = choose|
                side: ImpactSide,
                fact: CallableFactModel,
                shard_ref: CasObjectModel,
            |
                #[trigger] concerns(set, trace, s, side, fact, shard_ref) && is_about_fact(
                    s,
                    side,
                    fact,
                    o,
                ) && asks_for(fact, o);
            let c = CandidateModel { side, member_alias: alias_on(s, side), fact, shard_ref };
            assert(candidates.contains(c));
            let k = choose|k: int| 0 <= k < candidates.len() && candidates[k] == c;
            assert(candidate_asks(candidates[k], o));
        }
    }
}

/// Where an impact is verified, every declaration and every use about its subject is exact, no
/// boundary is about it, each side has a declaration of it and no second one, and neither the
/// fact set nor the relationship leaves anything open.
pub proof fn verified_impacts_are_exact(
    set: PreparedCallableFactSetModel,
    request: ThreadImpactRequestModel,
    trace: CallableQueryTraceModel,
    s: ImpactQuerySelectionModel,
)
    requires
        impact_selected(set, request, trace) == Ok::<ImpactQuerySelectionModel, ErrorModel>(s),
        s.certainty == ImpactCertainty::Verified,
    ensures
        forall|side: ImpactSide, fact: CallableFactModel, shard_ref: CasObjectModel| #[trigger]
            concerns(set, trace, s, side, fact, shard_ref) ==> match fact {
                CallableFactModel::Declaration(row) => row.exact_eligible,
                CallableFactModel::Use(row) => row.exact_eligible,
                CallableFactModel::Boundary(_) => false,
            },
        forall|side: ImpactSide| !#[trigger] finds_nothing(set, trace, s, side, true),
        forall|side: ImpactSide| !#[trigger] finds_several(set, trace, s, side),
        set.authority.completeness.certainty != CallableFactSetCertainty::Unsure,
        s.pair.relationship_authority
            == RelationshipAuthority::VerifiedSameSnapshotCompilationDependency,
        !(s.subject is Token),
        !s.findings_truncated,
        !s.source_windows_truncated,
{
    crate::thread_impact::certainty_is_earned(set, request, trace, s);
    assert forall|o: ImpactObligationModel| !#[trigger] is_owed(set, trace, s, o) by {
        obligations_are_what_is_owed(set, request, trace, s, o);
    }
    assert forall|side: ImpactSide, fact: CallableFactModel, shard_ref: CasObjectModel| #[trigger]
        concerns(set, trace, s, side, fact, shard_ref) implies match fact {
        CallableFactModel::Declaration(row) => row.exact_eligible,
        CallableFactModel::Use(row) => row.exact_eligible,
        CallableFactModel::Boundary(_) => false,
    } by {
        let o = ImpactObligationModel {
            code: match fact {
                CallableFactModel::Declaration(_) => ImpactObligationCode::VerifyDeclarationEvidence,
                CallableFactModel::Use(_) => ImpactObligationCode::VerifyUseEvidence,
                CallableFactModel::Boundary(_) => ImpactObligationCode::VerifyRelatedBoundary,
            },
            member_alias: Some(alias_on(s, side)),
            fact_id: Some(fact.fact_id()),
            required_check: None,
        };
        assert(!is_owed(set, trace, s, o));
        assert(is_about_fact(s, side, fact, o));
    }
    assert forall|side: ImpactSide| !#[trigger] finds_nothing(set, trace, s, side, true) by {
        let o = about_member(
            ImpactObligationCode::ProjectedDeclarationNotObserved,
            alias_on(s, side),
        );
        assert(!is_owed(set, trace, s, o));
        assert(is_about_side(s, side, o));
    }
    assert forall|side: ImpactSide| !#[trigger] finds_several(set, trace, s, side) by {
        let o = about_member(ImpactObligationCode::DisambiguateOverloadSet, alias_on(s, side));
        assert(!is_owed(set, trace, s, o));
        assert(is_about_side(s, side, o));
    }
    assert(!is_owed(
        set,
        trace,
        s,
        about_all(ImpactObligationCode::VerifyFactSetBoundaryScope),
    ));
    assert(!is_owed(set, trace, s, about_all(ImpactObligationCode::ResolveNavigationSubject)));
}

/// The kind of a fact.
pub open spec fn kind_said(fact: CallableFactModel) -> CallableFactKind {
    match fact {
        CallableFactModel::Declaration(_) => CallableFactKind::Declaration,
        CallableFactModel::Use(_) => CallableFactKind::Use,
        CallableFactModel::Boundary(_) => CallableFactKind::Boundary,
    }
}

/// Whether a pointer leads to a fact.
pub open spec fn leads_to_fact(
    pointer: ImpactFactPointerModel,
    fact: CallableFactModel,
    shard_ref: CasObjectModel,
) -> bool {
    &&& pointer.fact_id == fact.fact_id()
    &&& pointer.fact_shard_ref == shard_ref
    &&& pointer.provenance == fact.provenance()
    &&& pointer.shape_digest == match fact {
        CallableFactModel::Declaration(row) => row.shape_digest,
        _ => None,
    }
}

/// What a finding may be relied on for: a declaration is exact only where it is projected
/// exactly, with its shape, and the subject is no token; what is not exact is not sure.
pub open spec fn is_reliable_as(
    fact: CallableFactModel,
    for_token: bool,
    authority: ImpactFindingAuthority,
) -> bool {
    match authority {
        ImpactFindingAuthority::ExactProjectedDeclaration => !for_token && match fact {
            CallableFactModel::Declaration(row) => row.exact_eligible && row.shape_digest is Some,
            _ => false,
        },
        ImpactFindingAuthority::NavigationOnly => match fact {
            CallableFactModel::Declaration(row) => for_token || row.exact_eligible
                && row.shape_digest is None,
            CallableFactModel::Use(row) => for_token || row.exact_eligible,
            CallableFactModel::Boundary(_) => false,
        },
        ImpactFindingAuthority::Unsure => match fact {
            CallableFactModel::Declaration(row) => !for_token && !row.exact_eligible,
            CallableFactModel::Use(row) => !for_token && !row.exact_eligible,
            CallableFactModel::Boundary(_) => true,
        },
    }
}

/// Whether a finding tells a fact of a side.
pub open spec fn tells_fact(
    s: ImpactQuerySelectionModel,
    f: ImpactFindingModel,
    side: ImpactSide,
    fact: CallableFactModel,
    shard_ref: CasObjectModel,
) -> bool {
    &&& f.side == side
    &&& f.member_alias == alias_on(s, side)
    &&& f.fact_kind == kind_said(fact)
    &&& is_reliable_as(fact, s.subject is Token, f.authority)
    &&& leads_to_fact(f.evidence, fact, shard_ref)
    &&& match fact {
        CallableFactModel::Declaration(row) => f.detail == (
        ImpactFindingDetailModel::Declaration {
            declaration_kind: row.declaration_kind,
            symbol_identity: row.symbol_identity,
            compiler_callable_id: row.compiler_callable_id,
            compiler_class_id: row.compiler_class_id,
            projected_shape: row.projected_shape,
        }),
        CallableFactModel::Use(row) => f.detail == (ImpactFindingDetailModel::Use {
            relation_kind: row.relation_kind,
            source_owner: row.source_owner,
            target_callable_id: row.target_callable_id,
            target_symbol_identity: row.target_symbol_identity,
            target_repository_namespace: row.target_repository_namespace,
            target_resolution: row.target_resolution,
        }),
        CallableFactModel::Boundary(row) => f.detail == (ImpactFindingDetailModel::Boundary {
            stage: row.stage,
            code: row.code,
            subject: row.subject,
            required_checks: row.required_checks,
        }),
    }
}

proof fn candidate_is_told(
    s: ImpactQuerySelectionModel,
    binding: Seq<char>,
    c: CandidateModel,
)
    requires
        c.member_alias == alias_on(s, c.side),
    ensures
        tells_fact(s, finding_of(binding, c, s.subject), c.side, c.fact, c.shard_ref),
{
}

proof fn taken_are_candidates(candidates: Seq<CandidateModel>, limit: usize, c: CandidateModel)
    ensures
        fairly_taken(candidates, limit).contains(c) ==> candidates.contains(c),
        candidates.len() <= limit && candidates.contains(c) ==> fairly_taken(
            candidates,
            limit,
        ).contains(c),
{
    let lanes = lanes_of(candidates);
    let all = fair_order(lanes);
    fair_order_has_all(lanes, c);
    crate::thread_impact::fair_selection_fills_its_limit(candidates, limit);
    let taken = fairly_taken(candidates, limit);
    let on = |side: ImpactSide| of_side(candidates, side);
    assert forall|side: ImpactSide, kind: CallableFactKind| #[trigger]
        lane(candidates, side, kind).contains(c) == (candidates.contains(c) && c.side == side
            && c.fact.kind() == kind) by {
        filtered(candidates, |c: CandidateModel| c.side == side, c);
        filtered(of_side(candidates, side), |c: CandidateModel| c.fact.kind() == kind, c);
    }
    if taken.contains(c) {
        let k = choose|k: int| 0 <= k < taken.len() && taken[k] == c;
        assert(all[k] == c);
        assert(all.contains(c));
        let i = choose|i: int| 0 <= i < lanes.len() && (#[trigger] lanes[i]).contains(c);
        assert(lane(candidates, c.side, c.fact.kind()).contains(c));
    }
    if candidates.len() <= limit && candidates.contains(c) {
        assert(lane(candidates, c.side, c.fact.kind()).contains(c));
        let i: int = (if c.side == ImpactSide::Provider {
            0
        } else {
            3int
        }) + (match c.fact {
            CallableFactModel::Declaration(_) => 0int,
            CallableFactModel::Use(_) => 1,
            CallableFactModel::Boundary(_) => 2,
        });
        assert(lanes[i] == lane(candidates, c.side, c.fact.kind()));
        assert(lanes[i].contains(c));
        assert(all.contains(c));
        crate::fair::fair_order_is_complete(lanes);
        assert(taken == all);
    }
}

/// Every finding of an impact tells a fact about its subject, and where none was left out,
/// every fact about the subject is told by a finding.
#[verifier::rlimit(100)]
pub proof fn findings_tell_the_facts(
    set: PreparedCallableFactSetModel,
    request: ThreadImpactRequestModel,
    trace: CallableQueryTraceModel,
    s: ImpactQuerySelectionModel,
)
    requires
        impact_selected(set, request, trace) == Ok::<ImpactQuerySelectionModel, ErrorModel>(s),
    ensures
        forall|i: int|
            0 <= i < s.findings.len() ==> exists|
                side: ImpactSide,
                fact: CallableFactModel,
                shard_ref: CasObjectModel,
            |
                #[trigger] concerns(set, trace, s, side, fact, shard_ref) && tells_fact(
                    s,
                    #[trigger] s.findings[i],
                    side,
                    fact,
                    shard_ref,
                ),
        !s.findings_truncated ==> forall|
            side: ImpactSide,
            fact: CallableFactModel,
            shard_ref: CasObjectModel,
        | #[trigger]
            concerns(set, trace, s, side, fact, shard_ref) ==> exists|i: int|
                0 <= i < s.findings.len() && tells_fact(
                    s,
                    #[trigger] s.findings[i],
                    side,
                    fact,
                    shard_ref,
                ),
{
    let (scope, candidates) = selected_from(set, request, trace, s);
    let normal = request_normalized(set, request)->Ok_0;
    let limit = normal.budgets.max_findings;
    let taken = fairly_taken(candidates, limit);
    let binding = s.binding_digest;
    assert(s.findings == findings_of(binding, taken, s.subject));
    assert(s.findings_truncated == (candidates.len() > limit));
    assert forall|i: int| 0 <= i < s.findings.len() implies exists|
        side: ImpactSide,
        fact: CallableFactModel,
        shard_ref: CasObjectModel,
    |
        #[trigger] concerns(set, trace, s, side, fact, shard_ref) && tells_fact(
            s,
            #[trigger] s.findings[i],
            side,
            fact,
            shard_ref,
        ) by {
        let c = taken[i];
        assert(taken.contains(c));
        taken_are_candidates(candidates, limit, c);
        assert(candidates.contains(c));
        reveal(are_candidates);
        candidate_is_told(s, binding, c);
        assert(s.findings[i] == finding_of(binding, c, s.subject));
        assert(concerns(set, trace, s, c.side, c.fact, c.shard_ref));
    }
    if !s.findings_truncated {
        assert forall|side: ImpactSide, fact: CallableFactModel, shard_ref: CasObjectModel|
            #[trigger] concerns(set, trace, s, side, fact, shard_ref) implies exists|i: int|
            0 <= i < s.findings.len() && tells_fact(
                s,
                #[trigger] s.findings[i],
                side,
                fact,
                shard_ref,
            ) by {
            reveal(are_candidates);
            let c = CandidateModel { side, member_alias: alias_on(s, side), fact, shard_ref };
            assert(candidates.contains(c));
            taken_are_candidates(candidates, limit, c);
            let i = choose|i: int| 0 <= i < taken.len() && taken[i] == c;
            candidate_is_told(s, binding, c);
            assert(s.findings[i] == finding_of(binding, c, s.subject));
        }
    }
}

proof fn evidence_is_there(
    obligations: Seq<ImpactObligationModel>,
    candidates: Seq<CandidateModel>,
    before: Seq<ImpactFactPointerModel>,
    i: int,
)
    requires
        0 <= i,
    ensures
        match evidence_from(obligations, candidates, before, i) {
            Ok(all) => {
                &&& forall|p: ImpactFactPointerModel| before.contains(p) ==> #[trigger] all.contains(p)
                &&& forall|k: int|
                    i <= k < obligations.len() && (#[trigger] obligations[k]).fact_id is Some
                        ==> has_key::<ImpactFactPointer>(all, obligations[k].fact_id->0)
                &&& forall|p: ImpactFactPointerModel| #[trigger]
                    all.contains(p) ==> before.contains(p) || exists|c: CandidateModel|
                        #[trigger] candidates.contains(c) && p == pointer_to(c)
            },
            Err(_) => true,
        },
    decreases obligations.len() - i,
{
    if i < obligations.len() {
        match obligations[i].fact_id {
            None => {
                evidence_is_there(obligations, candidates, before, i + 1);
            },
            Some(fact_id) => {
                if let Some(c) = record_at::<Candidate>(candidates, fact_id) {
                    found_is_there::<Candidate>(candidates, fact_id);
                    let x = pointer_to(c);
                    let then = entered::<ImpactFactPointer>(before, x);
                    entered_keeps_records::<ImpactFactPointer>(before, x);
                    no_other_record_comes_in::<ImpactFactPointer>(before, x);
                    evidence_is_there(obligations, candidates, then, i + 1);
                    if let Ok(all) = evidence_from(obligations, candidates, before, i) {
                        assert(ImpactFactPointer::key(x) == fact_id);
                        let k = choose|k: int|
                            0 <= k < then.len() && ImpactFactPointer::key(#[trigger] then[k])
                                == fact_id;
                        assert(then.contains(then[k]));
                        assert(all.contains(then[k]));
                        let j = choose|j: int| 0 <= j < all.len() && all[j] == then[k];
                        assert(ImpactFactPointer::key(all[j]) == fact_id);
                        assert forall|p: ImpactFactPointerModel| before.contains(p) implies
                            #[trigger] all.contains(p) by {
                            assert(then.contains(p));
                        }
                        assert forall|p: ImpactFactPointerModel| #[trigger]
                            all.contains(p) implies before.contains(p) || exists|
                            c: CandidateModel,
                        | #[trigger] candidates.contains(c) && p == pointer_to(c) by {
                            if then.contains(p) {
                                let m = choose|m: int| 0 <= m < then.len() && then[m] == p;
                                assert(then[m] == x || before.contains(then[m]));
                                assert(candidates.contains(c));
                            }
                        }
                    }
                }
            },
        }
    }
}

/// Whether a pointer leads to a fact about the subject.
pub open spec fn leads_to_concern(
    set: PreparedCallableFactSetModel,
    trace: CallableQueryTraceModel,
    s: ImpactQuerySelectionModel,
    pointer: ImpactFactPointerModel,
) -> bool {
    exists|side: ImpactSide, fact: CallableFactModel, shard_ref: CasObjectModel| #[trigger]
        concerns(set, trace, s, side, fact, shard_ref) && leads_to_fact(pointer, fact, shard_ref)
}

/// Whether a fact is among those that pointers lead to.
pub open spec fn is_evident(evidence: Seq<ImpactFactPointerModel>, fact_id: Seq<char>) -> bool {
    exists|i: int| 0 <= i < evidence.len() && (#[trigger] evidence[i]).fact_id == fact_id
}

proof fn evidence_is_evident(
    obligations: Seq<ImpactObligationModel>,
    candidates: Seq<CandidateModel>,
    all: Seq<ImpactFactPointerModel>,
    k: int,
)
    requires
        evidence_from(obligations, candidates, Seq::empty(), 0) == Ok::<
            Seq<ImpactFactPointerModel>,
            ErrorModel,
        >(all),
        0 <= k < obligations.len(),
        obligations[k].fact_id is Some,
    ensures
        is_evident(all, obligations[k].fact_id->0),
{
    evidence_is_there(obligations, candidates, Seq::empty(), 0);
    let id = obligations[k].fact_id->0;
    assert(has_key::<ImpactFactPointer>(all, id));
    let i = choose|i: int| 0 <= i < all.len() && ImpactFactPointer::key(#[trigger] all[i]) == id;
    assert(all[i].fact_id == id);
}

proof fn evidence_leads_to_concern(
    set: PreparedCallableFactSetModel,
    trace: CallableQueryTraceModel,
    s: ImpactQuerySelectionModel,
    obligations: Seq<ImpactObligationModel>,
    candidates: Seq<CandidateModel>,
    all: Seq<ImpactFactPointerModel>,
    i: int,
)
    requires
        are_candidates(set, trace, s, candidates),
        evidence_from(obligations, candidates, Seq::empty(), 0) == Ok::<
            Seq<ImpactFactPointerModel>,
            ErrorModel,
        >(all),
        0 <= i < all.len(),
    ensures
        leads_to_concern(set, trace, s, all[i]),
{
    let nothing = Seq::<ImpactFactPointerModel>::empty();
    evidence_is_there(obligations, candidates, nothing, 0);
    let p = all[i];
    let r = evidence_from(obligations, candidates, nothing, 0);
    assert(r->Ok_0 == all);
    assert(all.contains(p));
    assert(!nothing.contains(p));
    assert(exists|c: CandidateModel| #[trigger] candidates.contains(c) && p == pointer_to(c));
    let c = choose|c: CandidateModel| #[trigger] candidates.contains(c) && all[i] == pointer_to(c);
    reveal(are_candidates);
    assert(concerns(set, trace, s, c.side, c.fact, c.shard_ref));
    assert(leads_to_fact(all[i], c.fact, c.shard_ref));
}

/// Every obligation about a fact has its evidence: a pointer to a fact about the subject that
/// has the identity it names; and all evidence leads to such facts.
pub proof fn obligations_have_evidence(
    set: PreparedCallableFactSetModel,
    request: ThreadImpactRequestModel,
    trace: CallableQueryTraceModel,
    s: ImpactQuerySelectionModel,
)
    requires
        impact_selected(set, request, trace) == Ok::<ImpactQuerySelectionModel, ErrorModel>(s),
    ensures
        forall|k: int|
            0 <= k < s.obligations.len() && (#[trigger] s.obligations[k]).fact_id is Some
                ==> is_evident(s.obligation_evidence, s.obligations[k].fact_id->0),
        forall|i: int|
            0 <= i < s.obligation_evidence.len() ==> leads_to_concern(
                set,
                trace,
                s,
                #[trigger] s.obligation_evidence[i],
            ),
{
    let (scope, candidates) = selected_from(set, request, trace, s);
    let all = s.obligation_evidence;
    let obligations = s.obligations;
    assert(evidence_from(obligations, candidates, Seq::empty(), 0) == Ok::<
        Seq<ImpactFactPointerModel>,
        ErrorModel,
    >(all));
    assert forall|k: int|
        0 <= k < obligations.len() && (#[trigger] obligations[k]).fact_id is Some implies is_evident(
        all,
        obligations[k].fact_id->0,
    ) by {
        evidence_is_evident(obligations, candidates, all, k);
    }
    assert forall|i: int| 0 <= i < all.len() implies leads_to_concern(
        set,
        trace,
        s,
        #[trigger] all[i],
    ) by {
        evidence_leads_to_concern(set, trace, s, obligations, candidates, all, i);
    }
}

/// Whether the shape of the subject on a side is known exactly, with a digest: there is one
/// declaration of it, which is exact and has this digest, and nothing bounds it.
pub open spec fn is_exact_shape(
    set: PreparedCallableFactSetModel,
    trace: CallableQueryTraceModel,
    s: ImpactQuerySelectionModel,
    side: ImpactSide,
    digest: Seq<char>,
) -> bool {
    &&& !(s.subject is Token)
    &&& !finds_several(set, trace, s, side)
    &&& s.subject is CallableFamily ==> !lacks_descriptors(set, alias_on(s, side))
    &&& forall|fact: CallableFactModel, shard_ref: CasObjectModel| #[trigger]
        concerns(set, trace, s, side, fact, shard_ref) ==> !(fact is Boundary)
    &&& exists|row: DeclarationFactModel, shard_ref: CasObjectModel| #[trigger]
        concerns(set, trace, s, side, CallableFactModel::Declaration(row), shard_ref)
            && row.exact_eligible && row.shape_digest == Some(digest)
}

proof fn shape_is_exact(
    set: PreparedCallableFactSetModel,
    trace: CallableQueryTraceModel,
    s: ImpactQuerySelectionModel,
    candidates: Seq<CandidateModel>,
    side: ImpactSide,
    member: CallableMemberBindingModel,
    digest: Seq<char>,
)
    requires
        are_candidates(set, trace, s, candidates),
        !repeats_fact(candidates),
        crate::thread_impact::member_selected(set, alias_on(s, side)) == Ok::<
            CallableMemberBindingModel,
            ErrorModel,
        >(member),
    ensures
        (crate::thread_impact::exact_shape(member, s.subject, of_side(candidates, side)) == Some(
            digest,
        )) == is_exact_shape(set, trace, s, side, digest),
{
    let alias = alias_on(s, side);
    let mine = of_side(candidates, side);
    let declared = of_kind(mine, CallableFactKind::Declaration);
    let bounds = of_kind(mine, CallableFactKind::Boundary);
    side_counts(set, trace, s, candidates, side);
    member_lacks(set, member, alias);
    reveal(are_candidates);
    assert forall|c: CandidateModel| #[trigger] mine.contains(c) == (candidates.contains(c)
        && c.side == side) by {
        filtered(candidates, |c: CandidateModel| c.side == side, c);
    }
    assert forall|c: CandidateModel| #[trigger] declared.contains(c) == (mine.contains(c)
        && c.fact is Declaration) by {
        filtered(
            mine,
            |c: CandidateModel| c.fact.kind() == CallableFactKind::Declaration,
            c,
        );
    }
    assert forall|c: CandidateModel| #[trigger] bounds.contains(c) == (mine.contains(c) && c.fact
        is Boundary) by {
        filtered(mine, |c: CandidateModel| c.fact.kind() == CallableFactKind::Boundary, c);
    }
    assert((bounds.len() == 0) == forall|fact: CallableFactModel, shard_ref: CasObjectModel|
        #[trigger] concerns(set, trace, s, side, fact, shard_ref) ==> !(fact is Boundary)) by {
        if bounds.len() > 0 {
            let c = bounds[0];
            assert(bounds.contains(c));
            assert(mine.contains(c));
            assert(concerns(set, trace, s, side, c.fact, c.shard_ref));
        } else {
            assert forall|fact: CallableFactModel, shard_ref: CasObjectModel| #[trigger]
                concerns(set, trace, s, side, fact, shard_ref) implies !(fact is Boundary) by {
                let c = CandidateModel { side, member_alias: alias, fact, shard_ref };
                assert(candidates.contains(c));
                assert(mine.contains(c));
                assert(!bounds.contains(c));
            }
        }
    }
    if declared.len() == 1 {
        let c = declared[0];
        assert(declared.contains(c));
        assert(mine.contains(c));
        assert(concerns(set, trace, s, side, c.fact, c.shard_ref));
        assert(c.fact == CallableFactModel::Declaration(c.fact->Declaration_0));
        if is_exact_shape(set, trace, s, side, digest) {
            let (row, shard_ref) = choose|row: DeclarationFactModel, shard_ref: CasObjectModel|
                #[trigger] concerns(
                    set,
                    trace,
                    s,
                    side,
                    CallableFactModel::Declaration(row),
                    shard_ref,
                ) && row.exact_eligible && row.shape_digest == Some(digest);
            let d = CandidateModel {
                side,
                member_alias: alias,
                fact: CallableFactModel::Declaration(row),
                shard_ref,
            };
            assert(candidates.contains(d));
            assert(mine.contains(d));
            assert(declared.contains(d));
        }
    }
    if is_exact_shape(set, trace, s, side, digest) {
        let (row, shard_ref) = choose|row: DeclarationFactModel, shard_ref: CasObjectModel|
            #[trigger] concerns(set, trace, s, side, CallableFactModel::Declaration(row), shard_ref)
                && row.exact_eligible && row.shape_digest == Some(digest);
        assert(!finds_nothing(set, trace, s, side, true)) by {
            assert(concerns(
                set,
                trace,
                s,
                side,
                CallableFactModel::Declaration(row),
                shard_ref,
            ));
        }
        assert(declared.len() == 1);
    }
}

/// An impact says of each side what was found there, and compares the shapes of both exactly
/// where both are known.
#[verifier::rlimit(100)]
pub proof fn shapes_are_compared_exactly(
    set: PreparedCallableFactSetModel,
    request: ThreadImpactRequestModel,
    trace: CallableQueryTraceModel,
    s: ImpactQuerySelectionModel,
    left: Seq<char>,
    right: Seq<char>,
)
    requires
        impact_selected(set, request, trace) == Ok::<ImpactQuerySelectionModel, ErrorModel>(s),
    ensures
        s.members.len() == 2,
        s.members[0].side == ImpactSide::Provider,
        s.members[1].side == ImpactSide::Consumer,
        s.members[0].member_alias == s.pair.provider_member,
        s.members[1].member_alias == s.pair.consumer_member,
        s.members[0].observed == !finds_nothing(set, trace, s, ImpactSide::Provider, false),
        s.members[1].observed == !finds_nothing(set, trace, s, ImpactSide::Consumer, false),
        (s.members[0].exact_shape_digest == Some(left)) == is_exact_shape(
            set,
            trace,
            s,
            ImpactSide::Provider,
            left,
        ),
        (s.members[1].exact_shape_digest == Some(right)) == is_exact_shape(
            set,
            trace,
            s,
            ImpactSide::Consumer,
            right,
        ),
        is_exact_shape(set, trace, s, ImpactSide::Provider, left) && is_exact_shape(
            set,
            trace,
            s,
            ImpactSide::Consumer,
            right,
        ) ==> s.shape_status == if left == right {
            ImpactShapeStatus::ExactProjectedShapeEqual
        } else {
            ImpactShapeStatus::ExactProjectedShapeDelta
        },
        s.shape_status == ImpactShapeStatus::ExactProjectedShapeEqual || s.shape_status
            == ImpactShapeStatus::ExactProjectedShapeDelta ==> s.members[0].exact_shape_digest
            is Some && s.members[1].exact_shape_digest is Some,
{
    let (scope, candidates) = selected_from(set, request, trace, s);
    side_counts(set, trace, s, candidates, ImpactSide::Provider);
    side_counts(set, trace, s, candidates, ImpactSide::Consumer);
    shape_is_exact(set, trace, s, candidates, ImpactSide::Provider, scope.provider, left);
    shape_is_exact(set, trace, s, candidates, ImpactSide::Consumer, scope.consumer, right);
}

} // verus!
