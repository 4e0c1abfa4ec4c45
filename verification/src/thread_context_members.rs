//! What the evidence of a thread context holds of its members: every obligation that one of
//! them has, how complete each of them is, and counts that are those of what is shown.

use vstd::prelude::*;
use vstd::string::*;

use crate::error::ErrorModel;
use crate::json::{members_of_with, JsonModel};
use crate::table::{first_table, sorted, sorted_is_sorted};
use crate::thread::ThreadAuthorityModel;
use crate::thread_context::{
    authority_drafted, bindings_from, completeness_aggregated, completeness_collected,
    completeness_of, composed, composed_of, evidence_base, evidence_said, evidence_trimmed,
    gathered, items_taken, match_taken, matches_selected, member_row, obligation_rows,
    obligations_collected, obligations_of, policy_said, room_for_items, selection_said, size_of,
    source_taken, trimmed_evidence_is_honest, EvidenceParts, Gathered, MemberContext,
    MemberContextModel, RequestChecksModel, Taken, ThreadContextAuthorityModel,
    ThreadContextBudgetsModel,
};
use crate::thread_context_claims::{claims_what_all_say, completeness_is_what_all_say};
use crate::thread_context_facts::{
    fact_count, found, is_fact_of, is_shown, selected_facts_are_found, shows, shows_some,
};

verus! {

/// Whether a member has an obligation.
pub open spec fn owes(c: MemberContextModel, obligation: JsonModel) -> bool {
    match c.context.evidence.get("context"@) {
        Some(context) => match context.get("verificationObligations"@) {
            Some(JsonModel::Arr(items)) => items.contains(obligation),
            _ => false,
        },
        None => false,
    }
}

/// Whether a member says how complete its context is in a way.
pub open spec fn claims(c: MemberContextModel, completeness: JsonModel) -> bool {
    match c.context.evidence.get("context"@) {
        Some(context) => context.get("completeness"@) == Some(completeness),
        None => false,
    }
}

/// Whether a row says that something is of a member: of its alias, its service, its session
/// and its context.
pub open spec fn row_tells(
    row: JsonModel,
    c: MemberContextModel,
    key: Seq<char>,
    value: JsonModel,
) -> bool {
    &&& row.get("memberAlias"@) == Some(JsonModel::Str(c.member.member_alias))
    &&& row.get("serviceAlias"@) == Some(JsonModel::Str(c.member.service_alias))
    &&& row.get("sessionId"@) == Some(JsonModel::Str(c.member.session.session_id))
    &&& row.get("contextId"@) == Some(JsonModel::Str(c.context.context_id))
    &&& row.get(key) == Some(value)
}

/// Whether some row says that something is of a member.
pub open spec fn is_told(
    rows: Seq<JsonModel>,
    c: MemberContextModel,
    key: Seq<char>,
    value: JsonModel,
) -> bool {
    exists|k: int| 0 <= k < rows.len() && row_tells(#[trigger] rows[k], c, key, value)
}

/// Whether a row is that of an obligation of some member.
pub open spec fn tells_of_duty(row: JsonModel, contexts: Seq<MemberContextModel>) -> bool {
    exists|c: MemberContextModel, o: JsonModel|
        contexts.contains(c) && #[trigger] owes(c, o) && row_tells(row, c, "obligation"@, o)
}

/// Whether a row is that of how complete the context of some member is.
pub open spec fn tells_of_claim(row: JsonModel, contexts: Seq<MemberContextModel>) -> bool {
    exists|c: MemberContextModel, v: JsonModel|
        contexts.contains(c) && #[trigger] claims(c, v) && row_tells(row, c, "completeness"@, v)
}

/// Whether rows tell every obligation of every member, and nothing else.
pub open spec fn duties_are_told(
    rows: Seq<JsonModel>,
    contexts: Seq<MemberContextModel>,
) -> bool {
    &&& forall|c: MemberContextModel, o: JsonModel| #[trigger]
        contexts.contains(c) && #[trigger] owes(c, o) ==> is_told(rows, c, "obligation"@, o)
    &&& forall|k: int| 0 <= k < rows.len() ==> tells_of_duty(#[trigger] rows[k], contexts)
}

/// Whether rows tell how complete the context of every member is, one row of each.
pub open spec fn claims_are_told(
    rows: Seq<JsonModel>,
    contexts: Seq<MemberContextModel>,
) -> bool {
    &&& rows.len() == contexts.len()
    &&& forall|c: MemberContextModel| #[trigger]
        contexts.contains(c) ==> exists|v: JsonModel| #[trigger]
            claims(c, v) && is_told(rows, c, "completeness"@, v)
    &&& forall|k: int| 0 <= k < rows.len() ==> tells_of_claim(#[trigger] rows[k], contexts)
}

proof fn row_keys_differ()
    ensures
        "memberAlias"@ != "serviceAlias"@,
        "memberAlias"@ != "sessionId"@,
        "memberAlias"@ != "contextId"@,
        "memberAlias"@ != "obligation"@,
        "memberAlias"@ != "completeness"@,
        "serviceAlias"@ != "sessionId"@,
        "serviceAlias"@ != "contextId"@,
        "serviceAlias"@ != "obligation"@,
        "serviceAlias"@ != "completeness"@,
        "sessionId"@ != "contextId"@,
        "sessionId"@ != "obligation"@,
        "sessionId"@ != "completeness"@,
        "contextId"@ != "obligation"@,
        "contextId"@ != "completeness"@,
{
    reveal_strlit("memberAlias");
    reveal_strlit("serviceAlias");
    reveal_strlit("sessionId");
    reveal_strlit("contextId");
    reveal_strlit("obligation");
    reveal_strlit("completeness");
    assert("memberAlias"@.len() == 11);
    assert("serviceAlias"@.len() == 12);
    assert("sessionId"@.len() == 9);
    assert("contextId"@.len() == 9);
    assert("obligation"@.len() == 10);
    assert("completeness"@.len() == 12);
    assert("sessionId"@[0] != "contextId"@[0]);
    assert("serviceAlias"@[0] != "completeness"@[0]);
}

proof fn rows_tell(c: MemberContextModel, key: Seq<char>, value: JsonModel)
    requires
        key == "obligation"@ || key == "completeness"@,
    ensures
        row_tells(member_row(c, key, value), c, key, value),
{
    reveal(member_row);
    row_keys_differ();
    let o = JsonModel::object();
    let a = JsonModel::Str(c.member.member_alias);
    let s = JsonModel::Str(c.member.service_alias);
    let id = JsonModel::Str(c.member.session.session_id);
    let x = JsonModel::Str(c.context.context_id);
    let o1 = o.with("memberAlias"@, a);
    let o2 = o1.with("serviceAlias"@, s);
    let o3 = o2.with("sessionId"@, id);
    let o4 = o3.with("contextId"@, x);
    members_of_with(o, "memberAlias"@, a);
    members_of_with(o1, "serviceAlias"@, s);
    members_of_with(o2, "sessionId"@, id);
    members_of_with(o3, "contextId"@, x);
    members_of_with(o4, key, value);
}

proof fn prefix_items<A>(a: Seq<A>, b: Seq<A>)
    requires
        a.is_prefix_of(b),
    ensures
        forall|k: int| 0 <= k < a.len() ==> a[k] == #[trigger] b[k],
{
    assert forall|k: int| 0 <= k < a.len() implies a[k] == #[trigger] b[k] by {
        assert(a[k] == b.subrange(0, a.len() as int)[k]);
    }
}

/// Whether a row tells how complete the context of a member is.
pub open spec fn tells_claim_of(row: JsonModel, c: MemberContextModel) -> bool {
    exists|v: JsonModel| #[trigger] claims(c, v) && row_tells(row, c, "completeness"@, v)
}

proof fn obligations_are_told(
    before: Seq<JsonModel>,
    contexts: Seq<MemberContextModel>,
    i: int,
)
    requires
        0 <= i,
    ensures
        match obligations_collected(before, contexts, i) {
            Ok(rows) => {
                &&& before.is_prefix_of(rows)
                &&& forall|p: int, o: JsonModel|
                    i <= p < contexts.len() && #[trigger] owes(contexts[p], o) ==> is_told(
                        rows,
                        contexts[p],
                        "obligation"@,
                        o,
                    )
                &&& forall|k: int|
                    before.len() <= k < rows.len() ==> tells_of_duty(#[trigger] rows[k], contexts)
            },
            Err(_) => true,
        },
    decreases contexts.len() - i,
{
    if i < contexts.len() {
        let c = contexts[i];
        if let Some(obligations) = obligations_of(c.context.evidence) {
            let own = obligation_rows(c, obligations);
            obligations_are_told(before + own, contexts, i + 1);
            if let Ok(rows) = obligations_collected(before + own, contexts, i + 1) {
                assert(before.is_prefix_of(rows)) by {
                    prefix_items(before + own, rows);
                    assert(before =~= rows.subrange(0, before.len() as int));
                }
                assert forall|j: int| 0 <= j < obligations.len() implies row_tells(
                    rows[before.len() + j],
                    c,
                    "obligation"@,
                    #[trigger] obligations[j],
                ) by {
                    prefix_items(before + own, rows);
                    assert((before + own)[before.len() + j] == own[j]);
                    assert(rows[before.len() + j] == own[j]);
                    rows_tell(c, "obligation"@, obligations[j]);
                }
                assert forall|p: int, o: JsonModel|
                    i <= p < contexts.len() && #[trigger] owes(contexts[p], o) implies is_told(
                    rows,
                    contexts[p],
                    "obligation"@,
                    o,
                ) by {
                    if p == i {
                        let j = choose|j: int| 0 <= j < obligations.len() && obligations[j] == o;
                        assert(row_tells(
                            rows[before.len() + j],
                            c,
                            "obligation"@,
                            obligations[j],
                        ));
                    }
                }
                assert forall|k: int| before.len() <= k < rows.len() implies tells_of_duty(
                    #[trigger] rows[k],
                    contexts,
                ) by {
                    if k < before.len() + own.len() {
                        let j = k - before.len();
                        let o = obligations[j];
                        assert(row_tells(rows[before.len() + j], c, "obligation"@, o));
                        assert(obligations.contains(o));
                        assert(owes(c, o));
                        assert(contexts.contains(c));
                    }
                }
            }
        }
    }
}

proof fn completeness_is_told(
    before: Seq<JsonModel>,
    contexts: Seq<MemberContextModel>,
    i: int,
)
    requires
        0 <= i <= contexts.len(),
    ensures
        match completeness_collected(before, contexts, i) {
            Ok(rows) => {
                &&& before.is_prefix_of(rows)
                &&& rows.len() == before.len() + contexts.len() - i
                &&& forall|p: int|
                    i <= p < contexts.len() ==> tells_claim_of(
                        rows[before.len() + p - i],
                        #[trigger] contexts[p],
                    )
            },
            Err(_) => true,
        },
    decreases contexts.len() - i,
{
    if i < contexts.len() {
        let c = contexts[i];
        if let Some(v) = completeness_of(c.context.evidence) {
            let row = member_row(c, "completeness"@, v);
            let more = before.push(row);
            completeness_is_told(more, contexts, i + 1);
            if let Ok(rows) = completeness_collected(more, contexts, i + 1) {
                prefix_items(more, rows);
                assert(before =~= rows.subrange(0, before.len() as int));
                assert(rows[before.len() as int] == row);
                rows_tell(c, "completeness"@, v);
                assert(claims(c, v));
                assert forall|p: int| i <= p < contexts.len() implies tells_claim_of(
                    rows[before.len() + p - i],
                    #[trigger] contexts[p],
                ) by {
                    if p == i {
                        assert(claims(contexts[p], v));
                    } else {
                        assert(tells_claim_of(rows[more.len() + p - (i + 1)], contexts[p]));
                    }
                }
            }
        }
    }
}

proof fn evidence_keys_differ()
    ensures
        "matches"@ != "sources"@,
        "matches"@ != "memberCompleteness"@,
        "matches"@ != "verificationObligations"@,
        "matches"@ != "selection"@,
        "matches"@ != "completeness"@,
        "matches"@ != "publicationPolicy"@,
        "sources"@ != "memberCompleteness"@,
        "sources"@ != "verificationObligations"@,
        "sources"@ != "selection"@,
        "sources"@ != "completeness"@,
        "sources"@ != "publicationPolicy"@,
        "memberCompleteness"@ != "verificationObligations"@,
        "memberCompleteness"@ != "selection"@,
        "memberCompleteness"@ != "completeness"@,
        "memberCompleteness"@ != "publicationPolicy"@,
        "verificationObligations"@ != "selection"@,
        "verificationObligations"@ != "completeness"@,
        "verificationObligations"@ != "publicationPolicy"@,
        "selection"@ != "completeness"@,
        "selection"@ != "publicationPolicy"@,
        "completeness"@ != "publicationPolicy"@,
{
    reveal_strlit("matches");
    reveal_strlit("sources");
    reveal_strlit("memberCompleteness");
    reveal_strlit("verificationObligations");
    reveal_strlit("selection");
    reveal_strlit("completeness");
    reveal_strlit("publicationPolicy");
    assert("matches"@.len() == 7);
    assert("sources"@.len() == 7);
    assert("memberCompleteness"@.len() == 18);
    assert("verificationObligations"@.len() == 23);
    assert("selection"@.len() == 9);
    assert("completeness"@.len() == 12);
    assert("publicationPolicy"@.len() == 17);
    assert("matches"@[0] != "sources"@[0]);
}

proof fn selection_keys_differ()
    ensures
        "availableFacts"@ != "selectedFacts"@,
        "availableFacts"@ != "availableSources"@,
        "availableFacts"@ != "selectedSources"@,
        "availableFacts"@ != "truncated"@,
        "selectedFacts"@ != "availableSources"@,
        "selectedFacts"@ != "selectedSources"@,
        "selectedFacts"@ != "truncated"@,
        "availableSources"@ != "selectedSources"@,
        "availableSources"@ != "truncated"@,
        "selectedSources"@ != "truncated"@,
{
    reveal_strlit("availableFacts");
    reveal_strlit("selectedFacts");
    reveal_strlit("availableSources");
    reveal_strlit("selectedSources");
    reveal_strlit("truncated");
    assert("availableFacts"@.len() == 14);
    assert("selectedFacts"@.len() == 13);
    assert("availableSources"@.len() == 16);
    assert("selectedSources"@.len() == 15);
    assert("truncated"@.len() == 9);
}

/// Whether a selection says how many facts and sources there are and were selected, and
/// whether something was left out.
pub open spec fn selection_counts(
    selection: JsonModel,
    all_facts: usize,
    facts: nat,
    all_sources: usize,
    sources: nat,
    truncated: bool,
) -> bool {
    &&& selection.get("availableFacts"@) == Some(JsonModel::Uint(all_facts as u64))
    &&& selection.get("selectedFacts"@) == Some(JsonModel::Uint(facts as u64))
    &&& selection.get("availableSources"@) == Some(JsonModel::Uint(all_sources as u64))
    &&& selection.get("selectedSources"@) == Some(JsonModel::Uint(sources as u64))
    &&& selection.get("truncated"@) == Some(JsonModel::Bool(truncated))
}

proof fn selection_is_told(
    all_facts: usize,
    facts: nat,
    all_sources: usize,
    sources: nat,
    truncated: bool,
)
    ensures
        selection_counts(
            selection_said(all_facts, facts, all_sources, sources, truncated),
            all_facts,
            facts,
            all_sources,
            sources,
            truncated,
        ),
{
    reveal(selection_said);
    selection_keys_differ();
    let o = JsonModel::object();
    let a = JsonModel::Uint(all_facts as u64);
    let b = JsonModel::Uint(facts as u64);
    let c = JsonModel::Uint(all_sources as u64);
    let d = JsonModel::Uint(sources as u64);
    let t = JsonModel::Bool(truncated);
    let o1 = o.with("availableFacts"@, a);
    let o2 = o1.with("selectedFacts"@, b);
    let o3 = o2.with("availableSources"@, c);
    let o4 = o3.with("selectedSources"@, d);
    members_of_with(o, "availableFacts"@, a);
    members_of_with(o1, "selectedFacts"@, b);
    members_of_with(o2, "availableSources"@, c);
    members_of_with(o3, "selectedSources"@, d);
    members_of_with(o4, "truncated"@, t);
}

/// Whether evidence holds facts, sources and rows, and says of them what is so.
pub open spec fn evidence_holds(
    evidence: JsonModel,
    facts: Seq<JsonModel>,
    all_facts: usize,
    sources: Seq<JsonModel>,
    all_sources: usize,
    duties: Seq<JsonModel>,
    rows: Seq<JsonModel>,
    truncated: bool,
) -> bool {
    &&& evidence.get("matches"@) == Some(JsonModel::Arr(facts))
    &&& evidence.get("sources"@) == Some(JsonModel::Arr(sources))
    &&& evidence.get("verificationObligations"@) == Some(JsonModel::Arr(duties))
    &&& evidence.get("memberCompleteness"@) == Some(JsonModel::Arr(rows))
    &&& match evidence.get("selection"@) {
        Some(selection) => selection_counts(
            selection,
            all_facts,
            facts.len(),
            all_sources,
            sources.len(),
            truncated,
        ),
        None => false,
    }
    &&& match evidence.get("completeness"@) {
        Some(said) => claims_what_all_say(said, rows, truncated),
        None => false,
    }
}

proof fn evidence_is_told(
    e: EvidenceParts,
    facts: Seq<JsonModel>,
    sources: Seq<JsonModel>,
    truncated: bool,
)
    requires
        e.base is Obj,
    ensures
        match evidence_said(e, facts, sources, truncated) {
            Ok(evidence) => evidence_holds(
                evidence,
                facts,
                e.all_match_count,
                sources,
                e.all_source_count,
                e.obligations,
                e.member_completeness,
                truncated,
            ),
            Err(_) => true,
        },
{
    completeness_is_what_all_say(e.member_completeness, truncated);
    if let Ok(completeness) = completeness_aggregated(e.member_completeness, truncated) {
        evidence_keys_differ();
        let s = selection_said(
            e.all_match_count,
            facts.len(),
            e.all_source_count,
            sources.len(),
            truncated,
        );
        selection_is_told(
            e.all_match_count,
            facts.len(),
            e.all_source_count,
            sources.len(),
            truncated,
        );
        let p = policy_said();
        let o1 = e.base.with("matches"@, JsonModel::Arr(facts));
        let o2 = o1.with("sources"@, JsonModel::Arr(sources));
        let o3 = o2.with("memberCompleteness"@, JsonModel::Arr(e.member_completeness));
        let o4 = o3.with("verificationObligations"@, JsonModel::Arr(e.obligations));
        let o5 = o4.with("selection"@, s);
        let o6 = o5.with("completeness"@, completeness);
        members_of_with(e.base, "matches"@, JsonModel::Arr(facts));
        members_of_with(o1, "sources"@, JsonModel::Arr(sources));
        members_of_with(o2, "memberCompleteness"@, JsonModel::Arr(e.member_completeness));
        members_of_with(o3, "verificationObligations"@, JsonModel::Arr(e.obligations));
        members_of_with(o4, "selection"@, s);
        members_of_with(o5, "completeness"@, completeness);
        members_of_with(o6, "publicationPolicy"@, p);
    }
}

proof fn base_is_object(thread: ThreadAuthorityModel, a: ThreadContextAuthorityModel)
    ensures
        evidence_base(thread, a) is Obj,
{
    reveal(evidence_base);
}

proof fn sorted_contains(s: Seq<MemberContextModel>, c: MemberContextModel)
    ensures
        sorted::<MemberContext>(s).contains(c) == s.contains(c),
        sorted::<MemberContext>(s).len() == s.len(),
{
    broadcast use vstd::seq_lib::group_to_multiset_ensures;

    sorted_is_sorted::<MemberContext>(s);
    assert(sorted::<MemberContext>(s).to_multiset().count(c) == s.to_multiset().count(c));
    assert(sorted::<MemberContext>(s).to_multiset().len() == s.to_multiset().len());
}

/// Whether evidence tells what its members say: the obligations and the claims of all of
/// them, how many facts and sources it shows, and that something was left out wherever it
/// shows fewer than there are.
pub open spec fn members_are_told(
    evidence: JsonModel,
    contexts: Seq<MemberContextModel>,
    facts: Seq<JsonModel>,
    all_facts: usize,
    sources: Seq<JsonModel>,
    all_sources: usize,
    duties: Seq<JsonModel>,
    rows: Seq<JsonModel>,
    truncated: bool,
) -> bool {
    &&& evidence_holds(
        evidence,
        facts,
        all_facts,
        sources,
        all_sources,
        duties,
        rows,
        truncated,
    )
    &&& duties_are_told(duties, contexts)
    &&& claims_are_told(rows, contexts)
    &&& facts.len() < all_facts || sources.len() < all_sources ==> truncated
}

proof fn collected_rows_are_told(
    contexts: Seq<MemberContextModel>,
    duties: Seq<JsonModel>,
    rows: Seq<JsonModel>,
)
    requires
        obligations_collected(Seq::empty(), sorted::<MemberContext>(contexts), 0) == Ok::<
            Seq<JsonModel>,
            ErrorModel,
        >(duties),
        completeness_collected(Seq::empty(), sorted::<MemberContext>(contexts), 0) == Ok::<
            Seq<JsonModel>,
            ErrorModel,
        >(rows),
    ensures
        duties_are_told(duties, contexts),
        claims_are_told(rows, contexts),
{
    let s = sorted::<MemberContext>(contexts);
    obligations_are_told(Seq::empty(), s, 0);
    completeness_is_told(Seq::empty(), s, 0);
    assert forall|c: MemberContextModel| #[trigger] s.contains(c) == contexts.contains(c) by {
        sorted_contains(contexts, c);
    }
    assert(s.len() == contexts.len()) by {
        broadcast use vstd::seq_lib::group_to_multiset_ensures;

        sorted_is_sorted::<MemberContext>(contexts);
        assert(s.to_multiset().len() == contexts.to_multiset().len());
    }
    assert forall|c: MemberContextModel, o: JsonModel| #[trigger]
        contexts.contains(c) && #[trigger] owes(c, o) implies is_told(
        duties,
        c,
        "obligation"@,
        o,
    ) by {
        assert(s.contains(c));
        let p = choose|p: int| 0 <= p < s.len() && s[p] == c;
        assert(owes(s[p], o));
    }
    assert forall|k: int| 0 <= k < duties.len() implies tells_of_duty(
        #[trigger] duties[k],
        contexts,
    ) by {
        assert(tells_of_duty(duties[k], s));
        let (c, o) = choose|c: MemberContextModel, o: JsonModel|
            s.contains(c) && #[trigger] owes(c, o) && row_tells(
                duties[k],
                c,
                "obligation"@,
                o,
            );
        assert(owes(c, o));
    }
    assert forall|c: MemberContextModel| #[trigger] contexts.contains(c) implies exists|
        v: JsonModel,
    | #[trigger] claims(c, v) && is_told(rows, c, "completeness"@, v) by {
        assert(s.contains(c));
        let p = choose|p: int| 0 <= p < s.len() && s[p] == c;
        assert(tells_claim_of(rows[p], s[p]));
        let v = choose|v: JsonModel| #[trigger]
            claims(s[p], v) && row_tells(rows[p], s[p], "completeness"@, v);
        assert(claims(c, v));
        assert(row_tells(rows[p], c, "completeness"@, v));
    }
    assert forall|k: int| 0 <= k < rows.len() implies tells_of_claim(
        #[trigger] rows[k],
        contexts,
    ) by {
        let c = s[k];
        assert(s.contains(c));
        assert(tells_claim_of(rows[k], s[k]));
        let v = choose|v: JsonModel| #[trigger]
            claims(s[k], v) && row_tells(rows[k], s[k], "completeness"@, v);
        assert(claims(c, v));
    }
}

proof fn taken_facts_are_offered(
    t: Taken,
    matches: Seq<JsonModel>,
    sources: Seq<JsonModel>,
    i: int,
)
    requires
        0 <= i,
        t.matches.len() <= i,
        t.matches.len() <= matches.len(),
        forall|k: int| 0 <= k < t.matches.len() ==> matches.contains(#[trigger] t.matches[k]),
        i <= matches.len() && t.matches.len() == i ==> t.matches == matches.take(i),
        t.matches.len() == matches.len() ==> t.matches == matches,
    ensures
        ({
            let facts = items_taken(t, matches, sources, i).matches;
            &&& facts.len() <= matches.len()
            &&& forall|k: int| 0 <= k < facts.len() ==> matches.contains(#[trigger] facts[k])
            &&& facts.len() == matches.len() ==> facts == matches
        }),
    decreases
            (if matches.len() > sources.len() {
                matches.len()
            } else {
                sources.len()
            }) - i,
{
    if i < matches.len() || i < sources.len() {
        let u = match_taken(source_taken(t, sources, i), matches, i);
        assert forall|k: int| 0 <= k < u.matches.len() implies matches.contains(
            #[trigger] u.matches[k],
        ) by {
            if k < t.matches.len() {
                assert(u.matches[k] == t.matches[k]);
            } else {
                assert(u.matches[k] == matches[i]);
            }
        }
        if i < matches.len() && u.matches.len() == i + 1 {
            assert(u.matches =~= matches.take(i + 1));
        }
        if u.matches.len() == matches.len() && u.matches != t.matches {
            assert(t.matches.len() == i);
            assert(u.matches =~= matches);
        }
        taken_facts_are_offered(u, matches, sources, i + 1);
    }
}

proof fn composition_is_told(
    thread: ThreadAuthorityModel,
    intent: Seq<char>,
    terms: Seq<Seq<char>>,
    budgets: ThreadContextBudgetsModel,
    contexts: Seq<MemberContextModel>,
    request: RequestChecksModel,
) -> (r: (Gathered, Taken, Taken, bool))
    requires
        composed(thread, intent, terms, budgets, contexts, request) is Ok,
    ensures
        ({
            let (g, t, kept, truncated) = r;
            let evidence = composed(thread, intent, terms, budgets, contexts, request)->Ok_0.1;
            let s = sorted::<MemberContext>(contexts);
            &&& obligations_collected(Seq::empty(), s, 0) == Ok::<Seq<JsonModel>, ErrorModel>(
                g.parts.obligations,
            )
            &&& completeness_collected(Seq::empty(), s, 0) == Ok::<Seq<JsonModel>, ErrorModel>(
                g.parts.member_completeness,
            )
            &&& matches_selected(s, budgets.max_facts) == Ok::<(Seq<JsonModel>, usize), ErrorModel>(
                (g.matches, g.parts.all_match_count),
            )
            &&& t.matches.len() == 0
            &&& kept.matches.is_prefix_of(items_taken(t, g.matches, g.sources, 0).matches)
            &&& kept.sources.is_prefix_of(items_taken(t, g.matches, g.sources, 0).sources)
            &&& truncated == (g.truncated || items_taken(
                t,
                g.matches,
                g.sources,
                0,
            ).matches.len() < g.parts.all_match_count || items_taken(
                t,
                g.matches,
                g.sources,
                0,
            ).sources.len() < g.parts.all_source_count || kept.matches.len() < items_taken(
                t,
                g.matches,
                g.sources,
                0,
            ).matches.len() || kept.sources.len() < items_taken(
                t,
                g.matches,
                g.sources,
                0,
            ).sources.len())
            &&& evidence_holds(
                evidence,
                kept.matches,
                g.parts.all_match_count,
                kept.sources,
                g.parts.all_source_count,
                g.parts.obligations,
                g.parts.member_completeness,
                truncated,
            )
        }),
{
    reveal(composed_of);
    let evidence = composed(thread, intent, terms, budgets, contexts, request)->Ok_0.1;
    let s = sorted::<MemberContext>(contexts);
    let names = first_table::<String>(terms);
    let members = bindings_from(thread.members, s, intent, names, Seq::empty(), 0)->Ok_0;
    let draft = authority_drafted(thread, intent, names, budgets, members);
    let g = gathered(thread, draft, s)->Ok_0;
    base_is_object(thread, draft);
    let empty = evidence_said(g.parts, Seq::empty(), Seq::empty(), true)->Ok_0;
    let start = Taken {
        matches: Seq::empty(),
        sources: Seq::empty(),
        remaining: room_for_items(budgets.max_evidence_bytes, size_of(empty)),
    };
    let t = items_taken(start, g.matches, g.sources, 0);
    let cut = g.truncated || t.matches.len() < g.parts.all_match_count || t.sources.len()
        < g.parts.all_source_count;
    trimmed_evidence_is_honest(g.parts, t.matches, t.sources, cut, budgets.max_evidence_bytes);
    let (whole, facts, sources) = evidence_trimmed(
        g.parts,
        t.matches,
        t.sources,
        cut,
        budgets.max_evidence_bytes,
    )->Ok_0;
    assert(whole == evidence);
    let last = cut || facts.len() < t.matches.len() || sources.len() < t.sources.len();
    evidence_is_told(g.parts, facts, sources, last);
    (g, start, Taken { matches: facts, sources, remaining: 0 }, last)
}

/// The evidence of a context tells every obligation of every member and no other, how
/// complete each member says that it is, and of all of them together no more than they say.
/// It counts what it shows, and says so wherever something is left out.
pub proof fn contexts_tell_what_members_say(
    thread: ThreadAuthorityModel,
    intent: Seq<char>,
    terms: Seq<Seq<char>>,
    budgets: ThreadContextBudgetsModel,
    contexts: Seq<MemberContextModel>,
    request: RequestChecksModel,
)
    ensures
        match composed(thread, intent, terms, budgets, contexts, request) {
            Ok((_, evidence, _)) => exists|
                facts: Seq<JsonModel>,
                all_facts: usize,
                sources: Seq<JsonModel>,
                all_sources: usize,
                duties: Seq<JsonModel>,
                rows: Seq<JsonModel>,
                truncated: bool,
            | #[trigger]
                members_are_told(
                    evidence,
                    contexts,
                    facts,
                    all_facts,
                    sources,
                    all_sources,
                    duties,
                    rows,
                    truncated,
                ),
            Err(_) => true,
        },
{
    if let Ok((_, evidence, _)) = composed(thread, intent, terms, budgets, contexts, request) {
        let (g, t, kept, truncated) = composition_is_told(
            thread,
            intent,
            terms,
            budgets,
            contexts,
            request,
        );
        collected_rows_are_told(contexts, g.parts.obligations, g.parts.member_completeness);
        assert(members_are_told(
            evidence,
            contexts,
            kept.matches,
            g.parts.all_match_count,
            kept.sources,
            g.parts.all_source_count,
            g.parts.obligations,
            g.parts.member_completeness,
            truncated,
        ));
    }
}

/// Whether evidence shows nothing but facts that members found, and shows every one of them
/// unless it says that something was left out.
pub open spec fn facts_are_shown(evidence: JsonModel, contexts: Seq<MemberContextModel>) -> bool {
    match evidence.get("matches"@) {
        Some(JsonModel::Arr(facts)) => {
            &&& forall|k: int| 0 <= k < facts.len() ==> shows_some(#[trigger] facts[k], contexts)
            &&& match evidence.get("selection"@) {
                Some(selection) => selection.get("truncated"@) == Some(JsonModel::Bool(true)) || (
                forall|c: MemberContextModel, fact: JsonModel| #[trigger]
                    contexts.contains(c) && #[trigger] found(c, fact) ==> is_shown(
                        facts,
                        fact,
                        c,
                        contexts,
                    )),
                None => false,
            }
        },
        _ => false,
    }
}

proof fn shown_either_way(
    row: JsonModel,
    fact: JsonModel,
    c: MemberContextModel,
    contexts: Seq<MemberContextModel>,
)
    requires
        shows(row, fact, c, sorted::<MemberContext>(contexts)),
    ensures
        shows(row, fact, c, contexts),
{
    let s = sorted::<MemberContext>(contexts);
    let first = choose|first: MemberContextModel|
        s.contains(first) && first.member.member_alias == c.member.member_alias
            && #[trigger] is_fact_of(row, fact, first);
    sorted_contains(contexts, first);
    assert(is_fact_of(row, fact, first));
}

/// The evidence of a context shows nothing but facts that its members found, as they were
/// found, each with where it comes from; and every one of them unless it says that something
/// was left out.
#[verifier::rlimit(40)]
pub proof fn contexts_show_what_members_found(
    thread: ThreadAuthorityModel,
    intent: Seq<char>,
    terms: Seq<Seq<char>>,
    budgets: ThreadContextBudgetsModel,
    contexts: Seq<MemberContextModel>,
    request: RequestChecksModel,
)
    requires
        fact_count(sorted::<MemberContext>(contexts), contexts.len()) <= usize::MAX,
    ensures
        match composed(thread, intent, terms, budgets, contexts, request) {
            Ok((_, evidence, _)) => facts_are_shown(evidence, contexts),
            Err(_) => true,
        },
{
    if let Ok((_, evidence, _)) = composed(thread, intent, terms, budgets, contexts, request) {
        let (g, t, kept, truncated) = composition_is_told(
            thread,
            intent,
            terms,
            budgets,
            contexts,
            request,
        );
        let s = sorted::<MemberContext>(contexts);
        sorted_contains(contexts, contexts[0]);
        selected_facts_are_found(s, budgets.max_facts);
        assert(t.matches =~= g.matches.take(0));
        if g.matches.len() == 0 {
            assert(t.matches =~= g.matches);
        }
        taken_facts_are_offered(t, g.matches, g.sources, 0);
        let taken = items_taken(t, g.matches, g.sources, 0).matches;
        let facts = kept.matches;
        prefix_items(facts, taken);
        assert forall|k: int| 0 <= k < facts.len() implies shows_some(
            #[trigger] facts[k],
            contexts,
        ) by {
            assert(facts[k] == taken[k]);
            assert(g.matches.contains(taken[k]));
            let j = choose|j: int| 0 <= j < g.matches.len() && g.matches[j] == taken[k];
            assert(shows_some(g.matches[j], s));
            let (c, fact) = choose|c: MemberContextModel, fact: JsonModel|
                s.contains(c) && #[trigger] found(c, fact) && shows(g.matches[j], fact, c, s);
            sorted_contains(contexts, c);
            shown_either_way(facts[k], fact, c, contexts);
            assert(found(c, fact));
        }
        if !truncated {
            assert(taken == g.matches);
            assert(facts =~= g.matches);
            assert forall|c: MemberContextModel, fact: JsonModel| #[trigger]
                contexts.contains(c) && #[trigger] found(c, fact) implies is_shown(
                facts,
                fact,
                c,
                contexts,
            ) by {
                sorted_contains(contexts, c);
                assert(s.contains(c) && found(c, fact));
                assert(is_shown(g.matches, fact, c, s));
                let k = choose|k: int|
                    0 <= k < g.matches.len() && shows(#[trigger] g.matches[k], fact, c, s);
                shown_either_way(facts[k], fact, c, contexts);
            }
        }
    }
}

} // verus!
