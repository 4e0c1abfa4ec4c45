//! What the facts of a thread context are: those of its members, each with where it comes
//! from and nothing else changed, and all of them wherever nothing was left out.

use vstd::prelude::*;
use vstd::string::*;

use crate::fair::{fair_order, fair_order_has_all, fair_order_is_complete, first_of, lane_total};
use crate::json::{
    member_is_there, members_of_with, ordered, put_keeps_order, JsonModel, Members,
};
use crate::order;
use crate::table::{entered, entered_keeps_table, found_is_there, is_table, record_at};
use crate::text::text_less_irreflexive;
use crate::thread_context::{
    context_digest, fact_lane, fact_lane_keys, fact_lanes, facts_collected, facts_wrapped, lane_of,
    matches_of, matches_selected, members_collected, named_provenance, provenance_inserted,
    provenance_of, shares_member, with_members, FactCandidateModel, LaneKey, LaneKeyModel,
    MemberContextModel, MemberProvenance, MemberProvenanceModel,
};

verus! {

/// Whether a member found a fact.
pub open spec fn found(c: MemberContextModel, fact: JsonModel) -> bool {
    match c.context.evidence.get("context"@) {
        Some(context) => match context.get("matches"@) {
            Some(JsonModel::Arr(facts)) => facts.contains(fact),
            _ => false,
        },
        None => false,
    }
}

/// Whether a key is one under which it is said where a fact comes from.
pub open spec fn says_origin(key: Seq<char>) -> bool {
    ||| key == "memberAlias"@
    ||| key == "serviceAlias"@
    ||| key == "sessionId"@
    ||| key == "sessionAuthorityDigest"@
    ||| key == "language"@
    ||| key == "contextId"@
    ||| key == "contextDigest"@
    ||| key == "evidenceDigest"@
}

/// Whether a value says that it comes from a member.
pub open spec fn comes_from(row: JsonModel, c: MemberContextModel) -> bool {
    &&& row.get("memberAlias"@) == Some(JsonModel::Str(c.member.member_alias))
    &&& row.get("serviceAlias"@) == Some(JsonModel::Str(c.member.service_alias))
    &&& row.get("sessionId"@) == Some(JsonModel::Str(c.member.session.session_id))
    &&& row.get("sessionAuthorityDigest"@) == Some(
        JsonModel::Str(c.member.session.authority_digest),
    )
    &&& row.get("language"@) == Some(JsonModel::Str(c.member.session.language.uri()))
    &&& row.get("contextId"@) == Some(JsonModel::Str(c.context.context_id))
    &&& row.get("contextDigest"@) == Some(JsonModel::Str(context_digest(c.context)))
    &&& row.get("evidenceDigest"@) == Some(JsonModel::Str(c.context.evidence_digest))
}

/// Whether a row is a fact as it was found, with where it comes from.
pub open spec fn is_fact_of(row: JsonModel, fact: JsonModel, c: MemberContextModel) -> bool {
    &&& comes_from(row, c)
    &&& forall|key: Seq<char>| !says_origin(key) ==> #[trigger] row.get(key) == fact.get(key)
    &&& forall|key: Seq<char>| says_origin(key) ==> (#[trigger] fact.get(key)) is None
}

/// Whether a row is a fact that a member found, and says that it comes from a member of the
/// same alias.
pub open spec fn shows(
    row: JsonModel,
    fact: JsonModel,
    c: MemberContextModel,
    contexts: Seq<MemberContextModel>,
) -> bool {
    exists|first: MemberContextModel|
        contexts.contains(first) && first.member.member_alias == c.member.member_alias
            && #[trigger] is_fact_of(row, fact, first)
}

/// Whether some row shows a fact that a member found.
pub open spec fn is_shown(
    rows: Seq<JsonModel>,
    fact: JsonModel,
    c: MemberContextModel,
    contexts: Seq<MemberContextModel>,
) -> bool {
    exists|k: int| 0 <= k < rows.len() && shows(#[trigger] rows[k], fact, c, contexts)
}

/// Whether a row shows a fact that some member found.
pub open spec fn shows_some(row: JsonModel, contexts: Seq<MemberContextModel>) -> bool {
    exists|c: MemberContextModel, fact: JsonModel|
        contexts.contains(c) && #[trigger] found(c, fact) && shows(row, fact, c, contexts)
}

proof fn origin_keys_differ()
    ensures
        "memberAlias"@ != "serviceAlias"@,
        "memberAlias"@ != "sessionId"@,
        "memberAlias"@ != "sessionAuthorityDigest"@,
        "memberAlias"@ != "language"@,
        "memberAlias"@ != "contextId"@,
        "memberAlias"@ != "contextDigest"@,
        "memberAlias"@ != "evidenceDigest"@,
        "serviceAlias"@ != "sessionId"@,
        "serviceAlias"@ != "sessionAuthorityDigest"@,
        "serviceAlias"@ != "language"@,
        "serviceAlias"@ != "contextId"@,
        "serviceAlias"@ != "contextDigest"@,
        "serviceAlias"@ != "evidenceDigest"@,
        "sessionId"@ != "sessionAuthorityDigest"@,
        "sessionId"@ != "language"@,
        "sessionId"@ != "contextId"@,
        "sessionId"@ != "contextDigest"@,
        "sessionId"@ != "evidenceDigest"@,
        "sessionAuthorityDigest"@ != "language"@,
        "sessionAuthorityDigest"@ != "contextId"@,
        "sessionAuthorityDigest"@ != "contextDigest"@,
        "sessionAuthorityDigest"@ != "evidenceDigest"@,
        "language"@ != "contextId"@,
        "language"@ != "contextDigest"@,
        "language"@ != "evidenceDigest"@,
        "contextId"@ != "contextDigest"@,
        "contextId"@ != "evidenceDigest"@,
        "contextDigest"@ != "evidenceDigest"@,
{
    reveal_strlit("memberAlias");
    reveal_strlit("serviceAlias");
    reveal_strlit("sessionId");
    reveal_strlit("sessionAuthorityDigest");
    reveal_strlit("language");
    reveal_strlit("contextId");
    reveal_strlit("contextDigest");
    reveal_strlit("evidenceDigest");
    assert("memberAlias"@.len() == 11);
    assert("serviceAlias"@.len() == 12);
    assert("sessionId"@.len() == 9);
    assert("sessionAuthorityDigest"@.len() == 22);
    assert("language"@.len() == 8);
    assert("contextId"@.len() == 9);
    assert("contextDigest"@.len() == 13);
    assert("evidenceDigest"@.len() == 14);
    assert("contextId"@[0] == 'c');
    assert("sessionId"@[0] == 's');
}

proof fn origin_is_told(c: MemberContextModel)
    ensures
        provenance_of(c) is Obj,
        ordered(provenance_of(c)->Obj_0),
        comes_from(provenance_of(c), c),
        forall|key: Seq<char>|
            !says_origin(key) ==> (#[trigger] provenance_of(c).get(key)) is None,
{
    reveal(provenance_of);
    origin_keys_differ();
    let o0 = JsonModel::object();
    assert(o0 is Obj && ordered(o0->Obj_0));
    assert forall|key: Seq<char>| (#[trigger] o0.get(key)) is None by {}
    let o1 = o0.with("memberAlias"@, JsonModel::Str(c.member.member_alias));
    members_of_with(o0, "memberAlias"@, JsonModel::Str(c.member.member_alias));
    put_keeps_order(o0->Obj_0, "memberAlias"@, JsonModel::Str(c.member.member_alias));
    let o2 = o1.with("serviceAlias"@, JsonModel::Str(c.member.service_alias));
    members_of_with(o1, "serviceAlias"@, JsonModel::Str(c.member.service_alias));
    put_keeps_order(o1->Obj_0, "serviceAlias"@, JsonModel::Str(c.member.service_alias));
    let o3 = o2.with("sessionId"@, JsonModel::Str(c.member.session.session_id));
    members_of_with(o2, "sessionId"@, JsonModel::Str(c.member.session.session_id));
    put_keeps_order(o2->Obj_0, "sessionId"@, JsonModel::Str(c.member.session.session_id));
    let o4 = o3.with("sessionAuthorityDigest"@, JsonModel::Str(c.member.session.authority_digest));
    members_of_with(o3, "sessionAuthorityDigest"@, JsonModel::Str(c.member.session.authority_digest));
    put_keeps_order(o3->Obj_0, "sessionAuthorityDigest"@, JsonModel::Str(c.member.session.authority_digest));
    let o5 = o4.with("language"@, JsonModel::Str(c.member.session.language.uri()));
    members_of_with(o4, "language"@, JsonModel::Str(c.member.session.language.uri()));
    put_keeps_order(o4->Obj_0, "language"@, JsonModel::Str(c.member.session.language.uri()));
    let o6 = o5.with("contextId"@, JsonModel::Str(c.context.context_id));
    members_of_with(o5, "contextId"@, JsonModel::Str(c.context.context_id));
    put_keeps_order(o5->Obj_0, "contextId"@, JsonModel::Str(c.context.context_id));
    let o7 = o6.with("contextDigest"@, JsonModel::Str(context_digest(c.context)));
    members_of_with(o6, "contextDigest"@, JsonModel::Str(context_digest(c.context)));
    put_keeps_order(o6->Obj_0, "contextDigest"@, JsonModel::Str(context_digest(c.context)));
    let o8 = o7.with("evidenceDigest"@, JsonModel::Str(c.context.evidence_digest));
    members_of_with(o7, "evidenceDigest"@, JsonModel::Str(c.context.evidence_digest));
    put_keeps_order(o7->Obj_0, "evidenceDigest"@, JsonModel::Str(c.context.evidence_digest));
    assert(provenance_of(c) == o8);
}

proof fn keys_stand_once(m: Members, i: int, j: int)
    requires
        ordered(m),
        0 <= i < m.len(),
        0 <= j < m.len(),
        m[i].0 == m[j].0,
    ensures
        i == j,
{
    text_less_irreflexive(m[i].0);
    if i < j {
        assert(crate::text::text_less(m[i].0, m[j].0));
    } else if j < i {
        assert(crate::text::text_less(m[j].0, m[i].0));
    }
}

proof fn members_are_set(value: JsonModel, m: Members, n: nat, key: Seq<char>)
    requires
        value is Obj,
        ordered(m),
        n <= m.len(),
    ensures
        with_members(value, m, n) is Obj,
        forall|i: int|
            0 <= i < n && (#[trigger] m[i]).0 == key ==> with_members(value, m, n).get(key) == Some(
                m[i].1,
            ),
        (forall|i: int| 0 <= i < n ==> (#[trigger] m[i]).0 != key) ==> with_members(
            value,
            m,
            n,
        ).get(key) == value.get(key),
    decreases n,
{
    if n > 0 {
        let before = with_members(value, m, (n - 1) as nat);
        members_are_set(value, m, (n - 1) as nat, key);
        members_of_with(before, m[n - 1].0, m[n - 1].1);
        let after = with_members(value, m, n);
        assert(after.get(key) == if key == m[n - 1].0 {
            Some(m[n - 1].1)
        } else {
            before.get(key)
        });
        assert forall|i: int| 0 <= i < n && (#[trigger] m[i]).0 == key implies after.get(key)
            == Some(m[i].1) by {
            if m[n - 1].0 == key {
                keys_stand_once(m, i, n - 1);
            }
        }
    }
}

proof fn none_is_shared(value: JsonModel, m: Members, n: nat)
    requires
        n <= m.len(),
        !shares_member(value, m, n),
    ensures
        forall|i: int| 0 <= i < n ==> value.get((#[trigger] m[i]).0) is None,
    decreases n,
{
    if n > 0 {
        none_is_shared(value, m, (n - 1) as nat);
    }
}

proof fn inserted_is_fact(fact: JsonModel, c: MemberContextModel)
    requires
        fact is Obj,
    ensures
        match provenance_inserted(fact, provenance_of(c)) {
            Ok(row) => is_fact_of(row, fact, c),
            Err(_) => true,
        },
{
    if let Ok(row) = provenance_inserted(fact, provenance_of(c)) {
        origin_is_told(c);
        let p = provenance_of(c);
        let m = p->Obj_0;
        none_is_shared(fact, m, m.len());
        assert forall|key: Seq<char>| true implies (#[trigger] row.get(key)) == (if p.get(
            key,
        ) is Some {
            p.get(key)
        } else {
            fact.get(key)
        }) && (p.get(key) is Some ==> fact.get(key) is None) by {
            member_is_there(m, key);
            members_are_set(fact, m, m.len(), key);
            if p.get(key) is Some {
                let v = p.get(key)->0;
                let i = choose|i: int| 0 <= i < m.len() && #[trigger] m[i] == (key, v);
                assert(m[i].0 == key);
            }
        }
        assert forall|key: Seq<char>| says_origin(key) implies (#[trigger] fact.get(
            key,
        )) is None by {
            assert(p.get(key) is Some);
            assert(row.get(key) == p.get(key));
        }
        assert(row.get("memberAlias"@) == p.get("memberAlias"@));
        assert(row.get("serviceAlias"@) == p.get("serviceAlias"@));
        assert(row.get("sessionId"@) == p.get("sessionId"@));
        assert(row.get("sessionAuthorityDigest"@) == p.get("sessionAuthorityDigest"@));
        assert(row.get("language"@) == p.get("language"@));
        assert(row.get("contextId"@) == p.get("contextId"@));
        assert(row.get("contextDigest"@) == p.get("contextDigest"@));
        assert(row.get("evidenceDigest"@) == p.get("evidenceDigest"@));
    }
}

/// Whether it is said of some member where it stands.
pub open spec fn is_origin(p: MemberProvenanceModel, contexts: Seq<MemberContextModel>) -> bool {
    exists|c: MemberContextModel| #[trigger]
        contexts.contains(c) && p == named_provenance(c)
}

/// Whether a candidate is a fact that some member found.
pub open spec fn is_candidate(
    x: FactCandidateModel,
    contexts: Seq<MemberContextModel>,
) -> bool {
    exists|c: MemberContextModel| #[trigger]
        contexts.contains(c) && found(c, x.fact) && x.provenance == named_provenance(c) && x.fact
            is Obj
}

/// Whether a row shows the fact of a candidate.
pub open spec fn shows_candidate(
    row: JsonModel,
    x: FactCandidateModel,
    contexts: Seq<MemberContextModel>,
) -> bool {
    exists|first: MemberContextModel|
        contexts.contains(first) && first.member.member_alias == x.provenance.member_alias
            && #[trigger] is_fact_of(row, x.fact, first)
}

proof fn wrapped_facts_are_shown(
    candidates: Seq<FactCandidateModel>,
    known: Seq<MemberProvenanceModel>,
    before: Seq<JsonModel>,
    i: int,
    contexts: Seq<MemberContextModel>,
)
    requires
        0 <= i <= candidates.len(),
        is_table::<MemberProvenance>(known),
        forall|k: int| 0 <= k < known.len() ==> is_origin(#[trigger] known[k], contexts),
        forall|k: int|
            0 <= k < candidates.len() ==> is_candidate(#[trigger] candidates[k], contexts),
    ensures
        match facts_wrapped(candidates, known, before, i) {
            Ok(rows) => {
                &&& rows.len() == before.len() + candidates.len() - i
                &&& forall|k: int| 0 <= k < before.len() ==> #[trigger] rows[k] == before[k]
                &&& forall|p: int|
                    i <= p < candidates.len() ==> shows_candidate(
                        rows[before.len() + p - i],
                        #[trigger] candidates[p],
                        contexts,
                    )
            },
            Err(_) => true,
        },
    decreases candidates.len() - i,
{
    if i < candidates.len() {
        let x = candidates[i];
        let more = entered::<MemberProvenance>(known, x.provenance);
        entered_keeps_table::<MemberProvenance>(known, x.provenance);
        assert(is_candidate(x, contexts));
        let c = choose|c: MemberContextModel| #[trigger]
            contexts.contains(c) && found(c, x.fact) && x.provenance == named_provenance(c)
                && x.fact is Obj;
        assert(is_origin(x.provenance, contexts));
        assert forall|k: int| 0 <= k < more.len() implies is_origin(
            #[trigger] more[k],
            contexts,
        ) by {
            if more[k] != x.provenance {
                assert(known.contains(more[k]));
                let j = choose|j: int| 0 <= j < known.len() && known[j] == more[k];
                assert(is_origin(known[j], contexts));
            }
        }
        found_is_there::<MemberProvenance>(more, x.provenance.member_alias);
        let first = record_at::<MemberProvenance>(more, x.provenance.member_alias)->0;
        assert(more.contains(first));
        let j = choose|j: int| 0 <= j < more.len() && more[j] == first;
        assert(is_origin(more[j], contexts));
        let d = choose|d: MemberContextModel| #[trigger]
            contexts.contains(d) && first == named_provenance(d);
        inserted_is_fact(x.fact, d);
        if let Ok(row) = provenance_inserted(x.fact, first.value) {
            assert(is_fact_of(row, x.fact, d));
            assert(shows_candidate(row, x, contexts));
            wrapped_facts_are_shown(candidates, more, before.push(row), i + 1, contexts);
            if let Ok(rows) = facts_wrapped(candidates, more, before.push(row), i + 1) {
                assert(rows[before.len() as int] == before.push(row)[before.len() as int]);
                assert forall|k: int| 0 <= k < before.len() implies #[trigger] rows[k]
                    == before[k] by {
                    assert(rows[k] == before.push(row)[k]);
                }
                assert forall|p: int| i <= p < candidates.len() implies shows_candidate(
                    rows[before.len() + p - i],
                    #[trigger] candidates[p],
                    contexts,
                ) by {
                    if p > i {
                        assert(shows_candidate(
                            rows[before.push(row).len() + p - (i + 1)],
                            candidates[p],
                            contexts,
                        ));
                    }
                }
            }
        }
    }
}

/// The facts that a member found.
pub open spec fn facts_of(c: MemberContextModel) -> Seq<JsonModel> {
    match c.context.evidence.get("context"@) {
        Some(context) => match context.get("matches"@) {
            Some(JsonModel::Arr(facts)) => facts,
            _ => Seq::empty(),
        },
        None => Seq::empty(),
    }
}

/// The number of facts that the first `n` members found.
pub open spec fn fact_count(contexts: Seq<MemberContextModel>, n: nat) -> nat
    decreases n,
{
    if n == 0 || n > contexts.len() {
        0
    } else {
        fact_count(contexts, (n - 1) as nat) + facts_of(contexts[n - 1]).len()
    }
}

proof fn collected_facts(
    before: Seq<FactCandidateModel>,
    p: MemberProvenanceModel,
    facts: Seq<JsonModel>,
    i: int,
)
    requires
        0 <= i <= facts.len(),
    ensures
        match facts_collected(before, p, facts, i) {
            Ok(all) => {
                &&& all.len() == before.len() + facts.len() - i
                &&& forall|k: int| 0 <= k < before.len() ==> #[trigger] all[k] == before[k]
                &&& forall|k: int|
                    before.len() <= k < all.len() ==> {
                        &&& (#[trigger] all[k]).provenance == p
                        &&& all[k].fact == facts[k - before.len() + i]
                        &&& all[k].fact is Obj
                    }
            },
            Err(_) => true,
        },
    decreases facts.len() - i,
{
    if i < facts.len() {
        if let Some(compilation) = facts[i].str_at("compilation"@) {
            let x = FactCandidateModel { provenance: p, compilation, fact: facts[i] };
            collected_facts(before.push(x), p, facts, i + 1);
            if let Ok(all) = facts_collected(before.push(x), p, facts, i + 1) {
                assert forall|k: int| 0 <= k < before.len() implies #[trigger] all[k]
                    == before[k] by {
                    assert(all[k] == before.push(x)[k]);
                }
                assert(all[before.len() as int] == before.push(x)[before.len() as int]);
            }
        }
    }
}

/// Whether a fact that a member found is among some candidates.
pub open spec fn is_collected(
    all: Seq<FactCandidateModel>,
    c: MemberContextModel,
    fact: JsonModel,
) -> bool {
    exists|k: int|
        0 <= k < all.len() && (#[trigger] all[k]).fact == fact && all[k].provenance
            == named_provenance(c)
}

proof fn collected_members(
    before: Seq<FactCandidateModel>,
    contexts: Seq<MemberContextModel>,
    i: int,
)
    requires
        0 <= i <= contexts.len(),
    ensures
        match members_collected(before, contexts, i) {
            Ok(all) => {
                &&& before.len() <= all.len()
                &&& all.len() + fact_count(contexts, i as nat) == before.len() + fact_count(
                    contexts,
                    contexts.len(),
                )
                &&& forall|k: int| 0 <= k < before.len() ==> #[trigger] all[k] == before[k]
                &&& forall|k: int|
                    before.len() <= k < all.len() ==> is_candidate(#[trigger] all[k], contexts)
                &&& forall|p: int, fact: JsonModel|
                    i <= p < contexts.len() && #[trigger] found(contexts[p], fact) ==> is_collected(
                        all,
                        contexts[p],
                        fact,
                    )
            },
            Err(_) => true,
        },
    decreases contexts.len() - i,
{
    if i < contexts.len() {
        let c = contexts[i];
        if let Some(facts) = matches_of(c.context.evidence) {
            assert(facts == facts_of(c));
            let p = named_provenance(c);
            collected_facts(before, p, facts, 0);
            if let Ok(more) = facts_collected(before, p, facts, 0) {
                collected_members(more, contexts, i + 1);
                assert(fact_count(contexts, (i + 1) as nat) == fact_count(contexts, i as nat)
                    + facts.len());
                if let Ok(all) = members_collected(more, contexts, i + 1) {
                    assert forall|k: int| 0 <= k < before.len() implies #[trigger] all[k]
                        == before[k] by {
                        assert(all[k] == more[k]);
                    }
                    assert forall|k: int| before.len() <= k < all.len() implies is_candidate(
                        #[trigger] all[k],
                        contexts,
                    ) by {
                        if k < more.len() {
                            assert(all[k] == more[k]);
                            assert(contexts.contains(c));
                            assert(facts.contains(more[k].fact));
                            assert(found(c, all[k].fact));
                        }
                    }
                    assert forall|q: int, fact: JsonModel|
                        i <= q < contexts.len() && #[trigger] found(
                            contexts[q],
                            fact,
                        ) implies is_collected(all, contexts[q], fact) by {
                        if q == i {
                            assert(facts.contains(fact));
                            let j = choose|j: int| 0 <= j < facts.len() && facts[j] == fact;
                            let k: int = before.len() + j;
                            assert(more[k].provenance == p);
                            assert(more[k].fact == facts[j]);
                            assert(all[k] == more[k]);
                        }
                    }
                }
            }
        }
    }
}

/// The facts of the lanes of some keys.
pub open spec fn lanes_by(
    candidates: Seq<FactCandidateModel>,
    keys: Seq<LaneKeyModel>,
) -> Seq<Seq<FactCandidateModel>> {
    Seq::new(keys.len(), |i: int| fact_lane(candidates, keys[i]))
}

proof fn no_facts_no_lanes(keys: Seq<LaneKeyModel>, k: nat)
    requires
        k <= keys.len(),
    ensures
        lane_total(lanes_by(Seq::empty(), keys), k) == 0,
    decreases k,
{
    if k > 0 {
        no_facts_no_lanes(keys, (k - 1) as nat);
        reveal(Seq::filter);
    }
}

proof fn one_more_fact(
    candidates: Seq<FactCandidateModel>,
    keys: Seq<LaneKeyModel>,
    at: int,
    k: nat,
)
    requires
        candidates.len() > 0,
        0 <= at < keys.len(),
        keys[at] == lane_of(candidates.last()),
        keys.no_duplicates(),
        k <= keys.len(),
    ensures
        lane_total(lanes_by(candidates, keys), k) == lane_total(
            lanes_by(candidates.drop_last(), keys),
            k,
        ) + if at < k {
            1nat
        } else {
            0nat
        },
    decreases k,
{
    if k > 0 {
        one_more_fact(candidates, keys, at, (k - 1) as nat);
        reveal(Seq::filter);
        assert(lanes_by(candidates, keys)[k - 1] == fact_lane(candidates, keys[k - 1]));
        assert(lanes_by(candidates.drop_last(), keys)[k - 1] == fact_lane(
            candidates.drop_last(),
            keys[k - 1],
        ));
    }
}

proof fn lanes_have_all(candidates: Seq<FactCandidateModel>, keys: Seq<LaneKeyModel>)
    requires
        keys.no_duplicates(),
        forall|i: int| 0 <= i < candidates.len() ==> keys.contains(lane_of(#[trigger] candidates[i])),
    ensures
        lane_total(lanes_by(candidates, keys), keys.len()) == candidates.len(),
    decreases candidates.len(),
{
    if candidates.len() == 0 {
        assert(candidates =~= Seq::empty());
        no_facts_no_lanes(keys, keys.len());
    } else {
        let rest = candidates.drop_last();
        assert forall|i: int| 0 <= i < rest.len() implies keys.contains(
            lane_of(#[trigger] rest[i]),
        ) by {
            assert(rest[i] == candidates[i]);
        }
        lanes_have_all(rest, keys);
        assert(keys.contains(lane_of(candidates[candidates.len() - 1])));
        let at = choose|at: int| 0 <= at < keys.len() && keys[at] == lane_of(candidates.last());
        one_more_fact(candidates, keys, at, keys.len());
    }
}

proof fn keys_of_facts(candidates: Seq<FactCandidateModel>)
    ensures
        fact_lane_keys(candidates).no_duplicates(),
        forall|i: int|
            0 <= i < candidates.len() ==> fact_lane_keys(candidates).contains(
                lane_of(#[trigger] candidates[i]),
            ),
{
    let names = Seq::new(candidates.len(), |i: int| lane_of(candidates[i]));
    let keys = fact_lane_keys(candidates);
    order::first_table_is_table::<LaneKey>(names);
    assert forall|i: int, j: int|
        0 <= i < keys.len() && 0 <= j < keys.len() && i != j implies #[trigger] keys[i]
        != #[trigger] keys[j] by {
        order::parts_less_irreflexive(<LaneKey as order::Ordered>::parts(keys[i]));
        if i < j {
            assert(order::parts_less(
                <LaneKey as order::Ordered>::parts(keys[i]),
                <LaneKey as order::Ordered>::parts(keys[j]),
            ));
        } else {
            assert(order::parts_less(
                <LaneKey as order::Ordered>::parts(keys[j]),
                <LaneKey as order::Ordered>::parts(keys[i]),
            ));
        }
    }
    assert forall|i: int| 0 <= i < candidates.len() implies keys.contains(
        lane_of(#[trigger] candidates[i]),
    ) by {
        let x = lane_of(candidates[i]);
        assert(names[i] == x);
        assert(names.contains(x));
        order::table_holds_its_records::<LaneKey>(names, x);
        let k = choose|k: int|
            0 <= k < keys.len() && <LaneKey as order::Ordered>::parts(#[trigger] keys[k])
                == <LaneKey as order::Ordered>::parts(x);
        let a = <LaneKey as order::Ordered>::parts(keys[k]);
        let b = <LaneKey as order::Ordered>::parts(x);
        assert(a[0] == b[0] && a[1] == b[1]);
        assert(keys[k] == x);
    }
}

proof fn order_has_all(candidates: Seq<FactCandidateModel>)
    ensures
        fair_order(fact_lanes(candidates)).len() == candidates.len(),
        forall|x: FactCandidateModel| #[trigger]
            fair_order(fact_lanes(candidates)).contains(x) <==> candidates.contains(x),
{
    let keys = fact_lane_keys(candidates);
    let lanes = fact_lanes(candidates);
    keys_of_facts(candidates);
    lanes_have_all(candidates, keys);
    assert(lanes =~= lanes_by(candidates, keys));
    fair_order_is_complete(lanes);
    assert forall|x: FactCandidateModel| #[trigger]
        fair_order(lanes).contains(x) <==> candidates.contains(x) by {
        fair_order_has_all(lanes, x);
        if fair_order(lanes).contains(x) {
            let i = choose|i: int| 0 <= i < lanes.len() && (#[trigger] lanes[i]).contains(x);
            let key = keys[i];
            assert(lanes[i] == fact_lane(candidates, key));
            candidates.lemma_filter_contains_rev(|c: FactCandidateModel| lane_of(c) == key, x);
        }
        if candidates.contains(x) {
            let k = choose|k: int| 0 <= k < candidates.len() && candidates[k] == x;
            assert(keys.contains(lane_of(candidates[k])));
            let i = choose|i: int| 0 <= i < keys.len() && keys[i] == lane_of(x);
            let key = keys[i];
            let pred = |c: FactCandidateModel| lane_of(c) == key;
            assert(pred(candidates[k]));
            candidates.lemma_filter_contains(pred, k);
            assert(lanes[i] == candidates.filter(pred));
            assert(lanes[i].contains(x));
        }
    }
}

/// The facts that are selected are facts that members found, as they were found, each with
/// where it comes from. They are no more than asked for, and every fact that a member found
/// is among them where as many are selected as there are.
#[verifier::rlimit(40)]
pub proof fn selected_facts_are_found(contexts: Seq<MemberContextModel>, limit: usize)
    requires
        fact_count(contexts, contexts.len()) <= usize::MAX,
    ensures
        match matches_selected(contexts, limit) {
            Ok((rows, all)) => {
                &&& all == fact_count(contexts, contexts.len())
                &&& rows.len() == if all <= limit {
                    all
                } else {
                    limit
                }
                &&& forall|k: int| 0 <= k < rows.len() ==> shows_some(#[trigger] rows[k], contexts)
                &&& rows.len() == all ==> forall|c: MemberContextModel, fact: JsonModel| #[trigger]
                    contexts.contains(c) && #[trigger] found(c, fact) ==> is_shown(
                        rows,
                        fact,
                        c,
                        contexts,
                    )
            },
            Err(_) => true,
        },
{
    collected_members(Seq::empty(), contexts, 0);
    if let Ok(candidates) = members_collected(Seq::empty(), contexts, 0) {
        let all = fair_order(fact_lanes(candidates));
        let taken = first_of(all, limit as nat);
        order_has_all(candidates);
        assert forall|k: int| 0 <= k < taken.len() implies is_candidate(
            #[trigger] taken[k],
            contexts,
        ) by {
            assert(taken[k] == all[k]);
            assert(all.contains(all[k]));
            assert(candidates.contains(taken[k]));
            let j = choose|j: int| 0 <= j < candidates.len() && candidates[j] == taken[k];
            assert(is_candidate(candidates[j], contexts));
        }
        wrapped_facts_are_shown(taken, Seq::empty(), Seq::empty(), 0, contexts);
        if let Ok(rows) = facts_wrapped(taken, Seq::empty(), Seq::empty(), 0) {
            assert forall|k: int| 0 <= k < rows.len() implies shows_some(
                #[trigger] rows[k],
                contexts,
            ) by {
                assert(shows_candidate(rows[k], taken[k], contexts));
                assert(is_candidate(taken[k], contexts));
                let c = choose|c: MemberContextModel| #[trigger]
                    contexts.contains(c) && found(c, taken[k].fact) && taken[k].provenance
                        == named_provenance(c) && taken[k].fact is Obj;
                assert(shows(rows[k], taken[k].fact, c, contexts));
            }
            if rows.len() == candidates.len() {
                assert(taken == all);
                assert forall|c: MemberContextModel, fact: JsonModel| #[trigger]
                    contexts.contains(c) && #[trigger] found(c, fact) implies is_shown(
                    rows,
                    fact,
                    c,
                    contexts,
                ) by {
                    let p = choose|p: int| 0 <= p < contexts.len() && contexts[p] == c;
                    assert(found(contexts[p], fact));
                    let k = choose|k: int|
                        0 <= k < candidates.len() && (#[trigger] candidates[k]).fact == fact
                            && candidates[k].provenance == named_provenance(c);
                    assert(candidates.contains(candidates[k]));
                    assert(all.contains(candidates[k]));
                    let q = choose|q: int| 0 <= q < taken.len() && taken[q] == candidates[k];
                    assert(shows_candidate(rows[q], taken[q], contexts));
                    assert(shows(rows[q], fact, c, contexts));
                }
            }
        }
    }
}

} // verus!
