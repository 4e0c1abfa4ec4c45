//! Closures: the references that a proof retains, in one canonical order.

use vstd::prelude::*;
use vstd::string::*;

use crate::cas::{CasObject, CasObjectModel, CAS_OBJECT_SCHEMA};
use crate::error::{budget, corrupt, corrupted, exceeded, outcome, ClewError, ErrorModel};
use crate::order;
use crate::order::{sorted_is_sorted, Ordered};
use crate::record::Record;
use crate::retained::{host_size, to_host_size};
use crate::table::{
    enter, entered, entered_keeps_table, find_record, found_is_there, is_table, record_at,
    Keyed,
};
use crate::text::same_text;

verus! {

/// What a closure is refused with.
pub struct ClosureMessages<'a> {
    pub invalid: &'a str,
    pub conflict: &'a str,
    pub unrepresentable: &'a str,
    pub overflow: &'a str,
    pub exceeded: &'a str,
}

/// The model of [`ClosureMessages`].
pub struct ClosureTexts {
    pub invalid: Seq<char>,
    pub conflict: Seq<char>,
    pub unrepresentable: Seq<char>,
    pub overflow: Seq<char>,
    pub exceeded: Seq<char>,
}

impl<'a> View for ClosureMessages<'a> {
    type V = ClosureTexts;

    open spec fn view(&self) -> ClosureTexts {
        ClosureTexts {
            invalid: self.invalid@,
            conflict: self.conflict@,
            unrepresentable: self.unrepresentable@,
            overflow: self.overflow@,
            exceeded: self.exceeded@,
        }
    }
}

/// The references from one on, joined to a table of references by digest.
pub open spec fn collected_from(
    references: Seq<CasObjectModel>,
    texts: ClosureTexts,
    table: Seq<CasObjectModel>,
    i: int,
) -> Result<Seq<CasObjectModel>, ErrorModel>
    decreases references.len() - i,
{
    if i < 0 || i >= references.len() {
        Ok(table)
    } else {
        let reference = references[i];
        if reference.schema != CAS_OBJECT_SCHEMA@ || reference.size == 0 {
            corrupted(texts.invalid)
        } else {
            match record_at::<CasObject>(table, reference.digest) {
                None => collected_from(
                    references,
                    texts,
                    entered::<CasObject>(table, reference),
                    i + 1,
                ),
                Some(other) => if other != reference {
                    corrupted(texts.conflict)
                } else {
                    collected_from(references, texts, table, i + 1)
                },
            }
        }
    }
}

/// The number of bytes of the references from one on, added to a number.
pub open spec fn size_from(
    closure: Seq<CasObjectModel>,
    texts: ClosureTexts,
    total: usize,
    i: int,
) -> Result<usize, ErrorModel>
    decreases closure.len() - i,
{
    if i < 0 || i >= closure.len() {
        Ok(total)
    } else {
        match host_size(closure[i].size) {
            None => exceeded(texts.unrepresentable),
            Some(size) => if total + size > usize::MAX {
                exceeded(texts.overflow)
            } else {
                size_from(closure, texts, (total + size) as usize, i + 1)
            },
        }
    }
}

/// The closure of some references, and the number of bytes that it retains.
pub open spec fn closed(references: Seq<CasObjectModel>, max_bytes: usize, texts: ClosureTexts) -> Result<
    (Seq<CasObjectModel>, usize),
    ErrorModel,
> {
    match collected_from(references, texts, Seq::empty(), 0) {
        Err(e) => Err(e),
        Ok(table) => {
            let closure = order::sorted::<CasObject>(table);
            match size_from(closure, texts, 0, 0) {
                Err(e) => Err(e),
                Ok(bytes) => if bytes > max_bytes {
                    exceeded(texts.exceeded)
                } else {
                    Ok((closure, bytes))
                },
            }
        },
    }
}

fn collect(references: &Vec<CasObject>, messages: &ClosureMessages<'_>) -> (r: Result<
    Vec<CasObject>,
    ClewError,
>)
    ensures
        outcome(r) == collected_from(references.deep_view(), messages@, Seq::empty(), 0),
{
    let ghost m = references.deep_view();
    let mut table: Vec<CasObject> = Vec::new();
    let mut i: usize = 0;
    assert(table.deep_view() =~= Seq::empty());
    while i < references.len()
        invariant
            i <= references.len(),
            m == references.deep_view(),
            collected_from(m, messages@, Seq::empty(), 0) == collected_from(
                m,
                messages@,
                table.deep_view(),
                i as int,
            ),
        decreases references.len() - i,
    {
        assert(m[i as int] == references@[i as int].deep_view());
        let reference = &references[i];
        if !same_text(reference.schema.as_str(), CAS_OBJECT_SCHEMA) || reference.size == 0 {
            return Err(corrupt(messages.invalid));
        }
        let known = match find_record(&table, reference.digest.as_str()) {
            None => false,
            Some(other) => {
                if !other.same_as(reference) {
                    return Err(corrupt(messages.conflict));
                }
                true
            },
        };
        if !known {
            enter(&mut table, reference.copied());
        }
        i = i + 1;
    }
    Ok(table)
}

fn retained_size(closure: &Vec<CasObject>, messages: &ClosureMessages<'_>) -> (r: Result<
    usize,
    ClewError,
>)
    ensures
        match size_from(closure.deep_view(), messages@, 0, 0) {
            Ok(bytes) => r == Ok::<usize, ClewError>(bytes),
            Err(e) => r is Err && r->Err_0.deep_view() == e,
        },
{
    let ghost m = closure.deep_view();
    let mut total: usize = 0;
    let mut i: usize = 0;
    while i < closure.len()
        invariant
            i <= closure.len(),
            m == closure.deep_view(),
            size_from(m, messages@, 0, 0) == size_from(m, messages@, total, i as int),
        decreases closure.len() - i,
    {
        assert(m[i as int] == closure@[i as int].deep_view());
        match to_host_size(closure[i].size) {
            None => {
                return Err(budget(messages.unrepresentable));
            },
            Some(size) => {
                if size > usize::MAX - total {
                    return Err(budget(messages.overflow));
                }
                total = total + size;
            },
        }
        i = i + 1;
    }
    Ok(total)
}

/// Closes some references: each digest once, in the order of schema, digest and
/// size, within a number of bytes.
pub fn close(references: &Vec<CasObject>, max_bytes: usize, messages: &ClosureMessages<'_>) -> (r:
    Result<(Vec<CasObject>, usize), ClewError>)
    ensures
        match closed(references.deep_view(), max_bytes, messages@) {
            Ok((closure, bytes)) => r is Ok && r->Ok_0.0.deep_view() == closure && r->Ok_0.1
                == bytes,
            Err(e) => r is Err && r->Err_0.deep_view() == e,
        },
{
    let table = collect(references, messages)?;
    let closure = order::sort(&table);
    let bytes: usize = retained_size(&closure, messages)?;
    if bytes > max_bytes {
        return Err(budget(messages.exceeded));
    }
    Ok((closure, bytes))
}

/// The sum of the sizes of the first `n` references.
pub open spec fn total_size(closure: Seq<CasObjectModel>, n: nat) -> int
    decreases n,
{
    if n == 0 || n > closure.len() {
        0
    } else {
        total_size(closure, (n - 1) as nat) + closure[n - 1].size
    }
}

proof fn size_is_total(closure: Seq<CasObjectModel>, texts: ClosureTexts, total: usize, i: int)
    requires
        0 <= i <= closure.len(),
        total == total_size(closure, i as nat),
    ensures
        match size_from(closure, texts, total, i) {
            Ok(bytes) => bytes == total_size(closure, closure.len()),
            Err(_) => true,
        },
    decreases closure.len() - i,
{
    if i < closure.len() {
        if let Some(size) = host_size(closure[i].size) {
            if total + size <= usize::MAX {
                assert(total_size(closure, (i + 1) as nat) == total + size);
                size_is_total(closure, texts, (total + size) as usize, i + 1);
            }
        }
    }
}

proof fn collected_laws(
    references: Seq<CasObjectModel>,
    texts: ClosureTexts,
    table: Seq<CasObjectModel>,
    i: int,
)
    requires
        0 <= i <= references.len(),
        is_table::<CasObject>(table),
        forall|x: CasObjectModel| table.contains(x) <==> #[trigger] references.take(i).contains(x),
    ensures
        match collected_from(references, texts, table, i) {
            Ok(all) => is_table::<CasObject>(all) && forall|x: CasObjectModel|
                all.contains(x) <==> #[trigger] references.contains(x),
            Err(_) => true,
        },
    decreases references.len() - i,
{
    if i == references.len() {
        assert(references.take(i) =~= references);
    } else {
        let reference = references[i];
        found_is_there::<CasObject>(table, reference.digest);
        assert(references.take(i + 1) =~= references.take(i).push(reference));
        match record_at::<CasObject>(table, reference.digest) {
            None => {
                entered_keeps_table::<CasObject>(table, reference);
                let next = entered::<CasObject>(table, reference);
                assert forall|x: CasObjectModel| next.contains(x) <==> #[trigger] references.take(
                    i + 1,
                ).contains(x) by {
                    let longer = references.take(i + 1);
                    if next.contains(x) {
                        let k = choose|k: int| 0 <= k < next.len() && next[k] == x;
                        if x == reference {
                            assert(longer[i] == x);
                        } else {
                            assert(table.contains(x));
                            assert(references.take(i).contains(x));
                            let j = choose|j: int|
                                0 <= j < references.take(i).len() && references.take(i)[j] == x;
                            assert(longer[j] == x);
                        }
                    }
                    if longer.contains(x) {
                        let j = choose|j: int| 0 <= j < longer.len() && longer[j] == x;
                        if j == i {
                            let k = choose|k: int|
                                0 <= k < next.len() && CasObject::key(#[trigger] next[k])
                                    == CasObject::key(reference);
                            if next[k] != reference {
                                assert(table.contains(next[k]));
                                let q = choose|q: int| 0 <= q < table.len() && table[q] == next[k];
                                assert(CasObject::key(table[q]) == reference.digest);
                            }
                        } else {
                            assert(references.take(i)[j] == x);
                            assert(references.take(i).contains(x));
                            assert(table.contains(x));
                        }
                    }
                }
                collected_laws(references, texts, next, i + 1);
            },
            Some(other) => {
                if other == reference {
                    assert forall|x: CasObjectModel| table.contains(x)
                        <==> #[trigger] references.take(i + 1).contains(x) by {
                        let longer = references.take(i + 1);
                        if table.contains(x) {
                            assert(references.take(i).contains(x));
                            let j = choose|j: int|
                                0 <= j < references.take(i).len() && references.take(i)[j] == x;
                            assert(longer[j] == x);
                        }
                        if longer.contains(x) {
                            let j = choose|j: int| 0 <= j < longer.len() && longer[j] == x;
                            if j < i {
                                assert(references.take(i)[j] == x);
                                assert(references.take(i).contains(x));
                            }
                        }
                    }
                    collected_laws(references, texts, table, i + 1);
                }
            },
        }
    }
}

/// A closure holds every reference and no other, is in the order of schema, digest
/// and size, and retains as many bytes as it says, within its bound.
pub proof fn closure_is_canonical(
    references: Seq<CasObjectModel>,
    max_bytes: usize,
    texts: ClosureTexts,
)
    ensures
        match closed(references, max_bytes, texts) {
            Ok((closure, bytes)) => order::is_sorted::<CasObject>(closure) && bytes <= max_bytes
                && bytes == total_size(closure, closure.len()) && forall|x: CasObjectModel|
                closure.contains(x) <==> #[trigger] references.contains(x),
            Err(_) => true,
        },
{
    assert forall|x: CasObjectModel| Seq::<CasObjectModel>::empty().contains(x)
        <==> #[trigger] references.take(0).contains(x) by {}
    collected_laws(references, texts, Seq::empty(), 0);
    if let Ok(table) = collected_from(references, texts, Seq::empty(), 0) {
        let closure = order::sorted::<CasObject>(table);
        sorted_is_sorted::<CasObject>(table);
        size_is_total(closure, texts, 0, 0);
        assert forall|x: CasObjectModel| closure.contains(x) <==> #[trigger] references.contains(x) by {
            broadcast use vstd::seq_lib::group_to_multiset_ensures;

            assert(closure.contains(x) <==> closure.to_multiset().count(x) > 0);
            assert(table.contains(x) <==> table.to_multiset().count(x) > 0);
        }
    }
}

} // verus!
