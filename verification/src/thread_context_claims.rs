//! What the completeness of a thread context claims: never more than what all of its
//! members say, and nothing less than what they say together.

use vstd::prelude::*;
use vstd::string::*;

use crate::error::ErrorCode;
use crate::json::{members_of_with, JsonModel};
use crate::record::Record;
use crate::table::{entered, entered_keeps_table, is_table};
use crate::thread_context::{
    completeness_aggregated, completeness_said, no_rows, row_counted, rows_counted, terms_entered,
    Completeness,
};

verus! {

/// What a row of a member says under a key of its completeness.
pub open spec fn said_in(row: JsonModel, key: Seq<char>) -> Option<JsonModel> {
    match row.get("completeness"@) {
        Some(completeness) => completeness.get(key),
        None => None,
    }
}

/// Whether a row says a text under a key.
pub open spec fn row_says(row: JsonModel, key: Seq<char>, text: Seq<char>) -> bool {
    said_in(row, key) == Some(JsonModel::Str(text))
}

/// Whether every row says a text under a key.
pub open spec fn all_say(rows: Seq<JsonModel>, key: Seq<char>, text: Seq<char>) -> bool {
    forall|k: int| 0 <= k < rows.len() ==> row_says(#[trigger] rows[k], key, text)
}

/// Whether some row says a text under a key.
pub open spec fn some_says(rows: Seq<JsonModel>, key: Seq<char>, text: Seq<char>) -> bool {
    exists|k: int| 0 <= k < rows.len() && row_says(#[trigger] rows[k], key, text)
}

/// Whether a row names a term that its member did not match.
pub open spec fn row_names(row: JsonModel, term: Seq<char>) -> bool {
    match said_in(row, "unmatchedTerms"@) {
        Some(JsonModel::Arr(items)) => items.contains(JsonModel::Str(term)),
        _ => false,
    }
}

/// Whether a row is one of a member: each of its four claims is one of those that there
/// are, and the terms that were not matched are texts.
pub open spec fn is_claim(row: JsonModel) -> bool {
    &&& row_says(row, "status"@, "INCOMPLETE"@) || row_says(row, "status"@, "CONDITIONAL_TASK"@)
        || row_says(row, "status"@, "COMPLETE_TASK"@)
    &&& row_says(row, "certainty"@, "VERIFIED"@) || row_says(row, "certainty"@, "UNSURE"@)
    &&& row_says(row, "support"@, "SUPPORTED"@) || row_says(row, "support"@, "UNSUPPORTED"@)
    &&& row_says(row, "coverage"@, "QUERY_COMPLETE"@) || row_says(row, "coverage"@, "PARTIAL"@)
    &&& match said_in(row, "unmatchedTerms"@) {
        Some(JsonModel::Arr(items)) => forall|i: int|
            0 <= i < items.len() ==> (#[trigger] items[i]) is Str,
        _ => false,
    }
}

proof fn claims_differ()
    ensures
        "VERIFIED"@ != "UNSURE"@,
        "SUPPORTED"@ != "UNSUPPORTED"@,
        "QUERY_COMPLETE"@ != "PARTIAL"@,
        "INCOMPLETE"@ != "CONDITIONAL_TASK"@,
        "INCOMPLETE"@ != "COMPLETE_TASK"@,
        "CONDITIONAL_TASK"@ != "COMPLETE_TASK"@,
{
    reveal_strlit("VERIFIED");
    reveal_strlit("UNSURE");
    reveal_strlit("SUPPORTED");
    reveal_strlit("UNSUPPORTED");
    reveal_strlit("QUERY_COMPLETE");
    reveal_strlit("PARTIAL");
    reveal_strlit("INCOMPLETE");
    reveal_strlit("CONDITIONAL_TASK");
    reveal_strlit("COMPLETE_TASK");
    assert("VERIFIED"@.len() == 8);
    assert("UNSURE"@.len() == 6);
    assert("SUPPORTED"@.len() == 9);
    assert("UNSUPPORTED"@.len() == 11);
    assert("QUERY_COMPLETE"@.len() == 14);
    assert("PARTIAL"@.len() == 7);
    assert("INCOMPLETE"@.len() == 10);
    assert("CONDITIONAL_TASK"@.len() == 16);
    assert("COMPLETE_TASK"@.len() == 13);
}

proof fn claim_keys_differ()
    ensures
        "status"@ != "support"@,
        "status"@ != "certainty"@,
        "status"@ != "coverage"@,
        "status"@ != "unmatchedTerms"@,
        "status"@ != "memberCount"@,
        "support"@ != "certainty"@,
        "support"@ != "coverage"@,
        "support"@ != "unmatchedTerms"@,
        "support"@ != "memberCount"@,
        "certainty"@ != "coverage"@,
        "certainty"@ != "unmatchedTerms"@,
        "certainty"@ != "memberCount"@,
        "coverage"@ != "unmatchedTerms"@,
        "coverage"@ != "memberCount"@,
        "unmatchedTerms"@ != "memberCount"@,
{
    reveal_strlit("status");
    reveal_strlit("support");
    reveal_strlit("certainty");
    reveal_strlit("coverage");
    reveal_strlit("unmatchedTerms");
    reveal_strlit("memberCount");
    assert("status"@.len() == 6);
    assert("support"@.len() == 7);
    assert("certainty"@.len() == 9);
    assert("coverage"@.len() == 8);
    assert("unmatchedTerms"@.len() == 14);
    assert("memberCount"@.len() == 11);
}

proof fn terms_are_entered(terms: Seq<Seq<char>>, items: Seq<JsonModel>, i: int)
    requires
        0 <= i,
        is_table::<String>(terms),
    ensures
        match terms_entered(terms, items, i) {
            Ok(after) => {
                &&& is_table::<String>(after)
                &&& forall|k: int| i <= k < items.len() ==> (#[trigger] items[k]) is Str
                &&& forall|term: Seq<char>| #[trigger]
                    after.contains(term) <==> terms.contains(term) || (exists|k: int|
                        i <= k < items.len() && #[trigger] items[k] == JsonModel::Str(term))
            },
            Err(e) => {
                &&& e.code == ErrorCode::InvalidInput
                &&& exists|k: int| i <= k < items.len() && !((#[trigger] items[k]) is Str)
            },
        },
    decreases items.len() - i,
{
    if i < items.len() {
        if let JsonModel::Str(first) = items[i] {
            let more = entered::<String>(terms, first);
            entered_keeps_table::<String>(terms, first);
            terms_are_entered(more, items, i + 1);
            assert forall|term: Seq<char>| #[trigger] more.contains(term) <==> terms.contains(term)
                || term == first by {
                if more.contains(term) {
                    let k = choose|k: int| 0 <= k < more.len() && more[k] == term;
                    assert(more[k] == first || terms.contains(more[k]));
                }
                let j = choose|j: int|
                    0 <= j < more.len() && <String as crate::table::Keyed>::key(#[trigger] more[j])
                        == <String as crate::table::Keyed>::key(first);
                assert(more[j] == first);
            }
            if let Ok(after) = terms_entered(more, items, i + 1) {
                assert forall|term: Seq<char>| #[trigger]
                    after.contains(term) <==> terms.contains(term) || (exists|k: int|
                        i <= k < items.len() && #[trigger] items[k] == JsonModel::Str(term)) by {
                    if exists|k: int| i <= k < items.len() && #[trigger] items[k] == JsonModel::Str(
                        term,
                    ) {
                        let k = choose|k: int|
                            i <= k < items.len() && #[trigger] items[k] == JsonModel::Str(term);
                        if k > i {
                            assert(items[k] == JsonModel::Str(term));
                        }
                        assert(more.contains(term) || k > i);
                    }
                    if more.contains(term) && !terms.contains(term) {
                        assert(items[i] == JsonModel::Str(term));
                    }
                }
            }
        } else {
            assert(!(items[i] is Str));
        }
    }
}

proof fn one_row_counts(a: Completeness, row: JsonModel)
    requires
        is_table::<String>(a.unmatched_terms),
    ensures
        match row_counted(a, row) {
            Ok(t) => {
                &&& is_claim(row)
                &&& is_table::<String>(t.unmatched_terms)
                &&& t.all_verified == (a.all_verified && row_says(row, "certainty"@, "VERIFIED"@))
                &&& t.all_supported == (a.all_supported && row_says(
                    row,
                    "support"@,
                    "SUPPORTED"@,
                ))
                &&& t.all_query_complete == (a.all_query_complete && row_says(
                    row,
                    "coverage"@,
                    "QUERY_COMPLETE"@,
                ))
                &&& t.any_incomplete == (a.any_incomplete || row_says(
                    row,
                    "status"@,
                    "INCOMPLETE"@,
                ))
                &&& t.any_conditional == (a.any_conditional || row_says(
                    row,
                    "status"@,
                    "CONDITIONAL_TASK"@,
                ))
                &&& forall|term: Seq<char>| #[trigger]
                    t.unmatched_terms.contains(term) <==> a.unmatched_terms.contains(term)
                        || row_names(row, term)
            },
            Err(e) => e.code == ErrorCode::InvalidInput && !is_claim(row),
        },
{
    claims_differ();
    if let Some(c) = row.get("completeness"@) {
        if let Some(JsonModel::Arr(items)) = c.get("unmatchedTerms"@) {
            terms_are_entered(a.unmatched_terms, items, 0);
            assert forall|term: Seq<char>| #[trigger] row_names(row, term) <==> exists|k: int|
                0 <= k < items.len() && #[trigger] items[k] == JsonModel::Str(term) by {
                if items.contains(JsonModel::Str(term)) {
                    let k = choose|k: int| 0 <= k < items.len() && items[k] == JsonModel::Str(term);
                    assert(items[k] == JsonModel::Str(term));
                }
            }
        }
    }
}

/// Whether every row from one on says a text under a key.
spec fn all_say_from(rows: Seq<JsonModel>, key: Seq<char>, text: Seq<char>, i: int) -> bool {
    forall|k: int| i <= k < rows.len() ==> row_says(#[trigger] rows[k], key, text)
}

/// Whether some row from one on says a text under a key.
spec fn some_says_from(rows: Seq<JsonModel>, key: Seq<char>, text: Seq<char>, i: int) -> bool {
    exists|k: int| i <= k < rows.len() && row_says(#[trigger] rows[k], key, text)
}

proof fn one_more_says(rows: Seq<JsonModel>, key: Seq<char>, text: Seq<char>, i: int)
    requires
        0 <= i < rows.len(),
    ensures
        all_say_from(rows, key, text, i) == (row_says(rows[i], key, text) && all_say_from(
            rows,
            key,
            text,
            i + 1,
        )),
        some_says_from(rows, key, text, i) == (row_says(rows[i], key, text) || some_says_from(
            rows,
            key,
            text,
            i + 1,
        )),
{
    if row_says(rows[i], key, text) && all_say_from(rows, key, text, i + 1) {
        assert forall|k: int| i <= k < rows.len() implies row_says(#[trigger] rows[k], key, text) by {
            if k > i {
                assert(row_says(rows[k], key, text));
            }
        }
    }
    if some_says_from(rows, key, text, i) {
        let k = choose|k: int| i <= k < rows.len() && row_says(#[trigger] rows[k], key, text);
        if k > i {
            assert(row_says(rows[k], key, text));
        }
    }
}

proof fn rows_count(a: Completeness, rows: Seq<JsonModel>, i: int)
    requires
        0 <= i <= rows.len(),
        is_table::<String>(a.unmatched_terms),
    ensures
        match rows_counted(a, rows, i) {
            Ok(t) => {
                &&& is_table::<String>(t.unmatched_terms)
                &&& forall|k: int| i <= k < rows.len() ==> is_claim(#[trigger] rows[k])
                &&& t.all_verified == (a.all_verified && all_say_from(
                    rows,
                    "certainty"@,
                    "VERIFIED"@,
                    i,
                ))
                &&& t.all_supported == (a.all_supported && all_say_from(
                    rows,
                    "support"@,
                    "SUPPORTED"@,
                    i,
                ))
                &&& t.all_query_complete == (a.all_query_complete && all_say_from(
                    rows,
                    "coverage"@,
                    "QUERY_COMPLETE"@,
                    i,
                ))
                &&& t.any_incomplete == (a.any_incomplete || some_says_from(
                    rows,
                    "status"@,
                    "INCOMPLETE"@,
                    i,
                ))
                &&& t.any_conditional == (a.any_conditional || some_says_from(
                    rows,
                    "status"@,
                    "CONDITIONAL_TASK"@,
                    i,
                ))
                &&& forall|term: Seq<char>| #[trigger]
                    t.unmatched_terms.contains(term) <==> a.unmatched_terms.contains(term)
                        || exists|k: int| i <= k < rows.len() && row_names(#[trigger] rows[k], term)
            },
            Err(e) => e.code == ErrorCode::InvalidInput && exists|k: int|
                i <= k < rows.len() && !is_claim(#[trigger] rows[k]),
        },
    decreases rows.len() - i,
{
    if i < rows.len() {
        one_row_counts(a, rows[i]);
        if let Ok(more) = row_counted(a, rows[i]) {
            rows_count(more, rows, i + 1);
            one_more_says(rows, "certainty"@, "VERIFIED"@, i);
            one_more_says(rows, "support"@, "SUPPORTED"@, i);
            one_more_says(rows, "coverage"@, "QUERY_COMPLETE"@, i);
            one_more_says(rows, "status"@, "INCOMPLETE"@, i);
            one_more_says(rows, "status"@, "CONDITIONAL_TASK"@, i);
            if let Ok(t) = rows_counted(more, rows, i + 1) {
                assert forall|term: Seq<char>| #[trigger]
                    t.unmatched_terms.contains(term) <==> a.unmatched_terms.contains(term)
                        || exists|k: int|
                        i <= k < rows.len() && row_names(#[trigger] rows[k], term) by {
                    if exists|k: int| i <= k < rows.len() && row_names(#[trigger] rows[k], term) {
                        let k = choose|k: int|
                            i <= k < rows.len() && row_names(#[trigger] rows[k], term);
                        if k > i {
                            assert(row_names(rows[k], term));
                        } else {
                            assert(more.unmatched_terms.contains(term));
                        }
                    }
                    assert(more.unmatched_terms.contains(term) ==> a.unmatched_terms.contains(term)
                        || row_names(rows[i], term));
                }
            }
        } else {
            assert(!is_claim(rows[i]));
        }
    }
}

proof fn members_of_completeness(a: Completeness, truncated: bool, count: nat)
    ensures
        ({
            let said = completeness_said(a, truncated, count);
            &&& said.get("status"@) == Some(
                JsonModel::Str(
                    if a.any_incomplete {
                        "INCOMPLETE"@
                    } else if a.any_conditional || truncated || !a.all_supported
                        || !a.all_query_complete || !a.all_verified {
                        "CONDITIONAL_TASK"@
                    } else {
                        "COMPLETE_TASK"@
                    },
                ),
            )
            &&& said.get("support"@) == Some(
                JsonModel::Str(
                    if a.all_supported {
                        "SUPPORTED"@
                    } else {
                        "UNSUPPORTED"@
                    },
                ),
            )
            &&& said.get("certainty"@) == Some(
                JsonModel::Str(
                    if a.all_verified && a.all_supported && a.all_query_complete && !truncated {
                        "VERIFIED"@
                    } else {
                        "UNSURE"@
                    },
                ),
            )
            &&& said.get("coverage"@) == Some(
                JsonModel::Str(
                    if a.all_query_complete && !truncated {
                        "QUERY_COMPLETE"@
                    } else {
                        "PARTIAL"@
                    },
                ),
            )
            &&& said.get("unmatchedTerms"@) == Some(
                <Vec<String> as Record>::json(a.unmatched_terms),
            )
            &&& said.get("memberCount"@) == Some(JsonModel::Uint(count as u64))
        }),
{
    reveal(completeness_said);
    claim_keys_differ();
    let o = JsonModel::object();
    let said = completeness_said(a, truncated, count);
    let status = JsonModel::Str(crate::thread_context::status_of(a, truncated));
    let support = JsonModel::Str(
        if a.all_supported {
            "SUPPORTED"@
        } else {
            "UNSUPPORTED"@
        },
    );
    let certainty = JsonModel::Str(crate::thread_context::certainty_of(a, truncated));
    let coverage = JsonModel::Str(
        if a.all_query_complete && !truncated {
            "QUERY_COMPLETE"@
        } else {
            "PARTIAL"@
        },
    );
    let terms = <Vec<String> as Record>::json(a.unmatched_terms);
    let o1 = o.with("status"@, status);
    let o2 = o1.with("support"@, support);
    let o3 = o2.with("certainty"@, certainty);
    let o4 = o3.with("coverage"@, coverage);
    let o5 = o4.with("unmatchedTerms"@, terms);
    members_of_with(o, "status"@, status);
    members_of_with(o1, "support"@, support);
    members_of_with(o2, "certainty"@, certainty);
    members_of_with(o3, "coverage"@, coverage);
    members_of_with(o4, "unmatchedTerms"@, terms);
    members_of_with(o5, "memberCount"@, JsonModel::Uint(count as u64));
}

/// What is owed to the claims of some members: support where all have support, coverage
/// where all are covered and nothing is left out, verification where all are verified,
/// supported and covered and nothing is left out, an incomplete task where one is incomplete,
/// and a complete one where all are, with all of that; the terms that some member did not
/// match, in order, each once; and how many members there are.
pub open spec fn claims_what_all_say(said: JsonModel, rows: Seq<JsonModel>, truncated: bool) -> bool {
    let supported = all_say(rows, "support"@, "SUPPORTED"@);
    let covered = all_say(rows, "coverage"@, "QUERY_COMPLETE"@) && !truncated;
    let verified = all_say(rows, "certainty"@, "VERIFIED"@) && supported && covered;
    &&& said.get("support"@) == Some(
        JsonModel::Str(
            if supported {
                "SUPPORTED"@
            } else {
                "UNSUPPORTED"@
            },
        ),
    )
    &&& said.get("coverage"@) == Some(
        JsonModel::Str(
            if covered {
                "QUERY_COMPLETE"@
            } else {
                "PARTIAL"@
            },
        ),
    )
    &&& said.get("certainty"@) == Some(
        JsonModel::Str(
            if verified {
                "VERIFIED"@
            } else {
                "UNSURE"@
            },
        ),
    )
    &&& said.get("status"@) == Some(
        JsonModel::Str(
            if some_says(rows, "status"@, "INCOMPLETE"@) {
                "INCOMPLETE"@
            } else if verified && all_say(rows, "status"@, "COMPLETE_TASK"@) {
                "COMPLETE_TASK"@
            } else {
                "CONDITIONAL_TASK"@
            },
        ),
    )
    &&& said.get("memberCount"@) == Some(JsonModel::Uint(rows.len() as u64))
    &&& match said.get("unmatchedTerms"@) {
        Some(JsonModel::Arr(terms)) => names_unmatched(terms, rows),
        _ => false,
    }
}

/// Whether some terms are the texts that some row names, in order, each once.
pub open spec fn names_unmatched(terms: Seq<JsonModel>, rows: Seq<JsonModel>) -> bool {
    &&& forall|i: int| 0 <= i < terms.len() ==> (#[trigger] terms[i]) is Str
    &&& forall|i: int, j: int|
        0 <= i < j < terms.len() ==> crate::text::text_less(
            (#[trigger] terms[i])->Str_0,
            (#[trigger] terms[j])->Str_0,
        )
    &&& forall|term: Seq<char>| #[trigger]
        terms.contains(JsonModel::Str(term)) <==> exists|k: int|
            0 <= k < rows.len() && row_names(#[trigger] rows[k], term)
}

/// The completeness of a context is made of what all of its members say, and is owed to all
/// rows that are claims, and to no others.
pub proof fn completeness_is_what_all_say(rows: Seq<JsonModel>, truncated: bool)
    ensures
        match completeness_aggregated(rows, truncated) {
            Ok(said) => {
                &&& forall|k: int| 0 <= k < rows.len() ==> is_claim(#[trigger] rows[k])
                &&& claims_what_all_say(said, rows, truncated)
            },
            Err(e) => e.code == ErrorCode::InvalidInput && exists|k: int|
                0 <= k < rows.len() && !is_claim(#[trigger] rows[k]),
        },
{
    claims_differ();
    rows_count(no_rows(), rows, 0);
    if let Ok(a) = rows_counted(no_rows(), rows, 0) {
        members_of_completeness(a, truncated, rows.len());
        let said = completeness_said(a, truncated, rows.len());
        assert(all_say(rows, "certainty"@, "VERIFIED"@) == a.all_verified);
        assert(all_say(rows, "support"@, "SUPPORTED"@) == a.all_supported);
        assert(all_say(rows, "coverage"@, "QUERY_COMPLETE"@) == a.all_query_complete);
        assert(some_says(rows, "status"@, "INCOMPLETE"@) == a.any_incomplete);
        assert(!a.any_incomplete && !a.any_conditional ==> all_say(
            rows,
            "status"@,
            "COMPLETE_TASK"@,
        )) by {
            if !a.any_incomplete && !a.any_conditional {
                assert forall|k: int| 0 <= k < rows.len() implies row_says(
                    #[trigger] rows[k],
                    "status"@,
                    "COMPLETE_TASK"@,
                ) by {
                    assert(is_claim(rows[k]));
                }
            }
        }
        assert(a.any_conditional ==> !all_say(rows, "status"@, "COMPLETE_TASK"@)) by {
            if a.any_conditional {
                let k = choose|k: int|
                    0 <= k < rows.len() && row_says(
                        #[trigger] rows[k],
                        "status"@,
                        "CONDITIONAL_TASK"@,
                    );
                assert(!row_says(rows[k], "status"@, "COMPLETE_TASK"@));
            }
        }
        let terms = <Vec<String> as Record>::json(a.unmatched_terms)->Arr_0;
        assert forall|i: int| 0 <= i < terms.len() implies (#[trigger] terms[i]) == JsonModel::Str(
            a.unmatched_terms[i],
        ) by {}
        assert forall|term: Seq<char>| #[trigger]
            terms.contains(JsonModel::Str(term)) <==> a.unmatched_terms.contains(term) by {
            if terms.contains(JsonModel::Str(term)) {
                let k = choose|k: int| 0 <= k < terms.len() && terms[k] == JsonModel::Str(term);
                assert(a.unmatched_terms[k] == term);
            }
            if a.unmatched_terms.contains(term) {
                let k = choose|k: int|
                    0 <= k < a.unmatched_terms.len() && a.unmatched_terms[k] == term;
                assert(terms[k] == JsonModel::Str(term));
            }
        }
        assert forall|i: int, j: int| 0 <= i < j < terms.len() implies crate::text::text_less(
            (#[trigger] terms[i])->Str_0,
            (#[trigger] terms[j])->Str_0,
        ) by {
            assert(crate::text::text_less(
                <String as crate::table::Keyed>::key(a.unmatched_terms[i]),
                <String as crate::table::Keyed>::key(a.unmatched_terms[j]),
            ));
        }
    }
}

} // verus!
