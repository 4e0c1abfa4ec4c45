//! Tables: lists of records in the order of their keys, each key once.

use vstd::prelude::*;
use vstd::string::*;

use crate::record::Record;
use crate::text::{
    same_text, text_before, text_less, text_less_irreflexive, text_less_total, text_less_transitive,
};

verus! {

/// A record that is found by a text.
pub trait Keyed: Record {
    /// The key of a model.
    spec fn key(v: <Self as DeepView>::V) -> Seq<char>;

    /// The key.
    fn key_text(&self) -> (r: &String)
        ensures
            r@ == Self::key(self.deep_view()),
    ;
}

impl Keyed for String {
    open spec fn key(v: Seq<char>) -> Seq<char> {
        v
    }

    fn key_text(&self) -> (r: &String) {
        self
    }
}

/// Whether a table has a key.
pub open spec fn has_key<T: Keyed>(t: Seq<<T as DeepView>::V>, key: Seq<char>) -> bool {
    exists|i: int| 0 <= i < t.len() && T::key(#[trigger] t[i]) == key
}

/// The first record with a key.
pub open spec fn record_at<T: Keyed>(t: Seq<<T as DeepView>::V>, key: Seq<char>) -> Option<
    <T as DeepView>::V,
>
    decreases t.len(),
{
    if t.len() == 0 {
        None
    } else if T::key(t[0]) == key {
        Some(t[0])
    } else {
        record_at::<T>(t.drop_first(), key)
    }
}

/// The table with a record entered at its place, unless its key is there.
pub open spec fn entered<T: Keyed>(
    t: Seq<<T as DeepView>::V>,
    x: <T as DeepView>::V,
) -> Seq<<T as DeepView>::V>
    decreases t.len(),
{
    if t.len() == 0 {
        seq![x]
    } else if T::key(t[0]) == T::key(x) {
        t
    } else if text_less(T::key(x), T::key(t[0])) {
        seq![x] + t
    } else {
        seq![t[0]] + entered::<T>(t.drop_first(), x)
    }
}

/// The table with a record set at its place, instead of one with the same key.
pub open spec fn replaced<T: Keyed>(
    t: Seq<<T as DeepView>::V>,
    x: <T as DeepView>::V,
) -> Seq<<T as DeepView>::V>
    decreases t.len(),
{
    if t.len() == 0 {
        seq![x]
    } else if T::key(t[0]) == T::key(x) {
        t.update(0, x)
    } else if text_less(T::key(x), T::key(t[0])) {
        seq![x] + t
    } else {
        seq![t[0]] + replaced::<T>(t.drop_first(), x)
    }
}

/// The table of some records, the first with each key.
pub open spec fn first_table<T: Keyed>(s: Seq<<T as DeepView>::V>) -> Seq<<T as DeepView>::V>
    decreases s.len(),
{
    if s.len() == 0 {
        Seq::empty()
    } else {
        entered::<T>(first_table::<T>(s.drop_last()), s.last())
    }
}

/// The table of some records, the last with each key.
pub open spec fn last_table<T: Keyed>(s: Seq<<T as DeepView>::V>) -> Seq<<T as DeepView>::V>
    decreases s.len(),
{
    if s.len() == 0 {
        Seq::empty()
    } else {
        replaced::<T>(last_table::<T>(s.drop_last()), s.last())
    }
}

/// Whether the records stand in the order of their keys, each key once.
pub open spec fn is_table<T: Keyed>(t: Seq<<T as DeepView>::V>) -> bool {
    forall|i: int, j: int|
        0 <= i < j < t.len() ==> text_less(T::key(#[trigger] t[i]), T::key(#[trigger] t[j]))
}

/// Entering a record keeps a table a table, adds no other record, and leaves
/// every record in it.
pub proof fn entered_keeps_table<T: Keyed>(t: Seq<<T as DeepView>::V>, x: <T as DeepView>::V)
    requires
        is_table::<T>(t),
    ensures
        is_table::<T>(entered::<T>(t, x)),
        has_key::<T>(entered::<T>(t, x), T::key(x)),
        forall|i: int|
            0 <= i < entered::<T>(t, x).len() ==> (#[trigger] entered::<T>(t, x)[i] == x
                || t.contains(entered::<T>(t, x)[i])),
        forall|y: <T as DeepView>::V| t.contains(y) ==> #[trigger] entered::<T>(t, x).contains(y),
        entered::<T>(t, x).len() == t.len() + if has_key::<T>(t, T::key(x)) {
            0nat
        } else {
            1nat
        },
    decreases t.len(),
{
    let r = entered::<T>(t, x);
    if t.len() == 0 {
        assert(r[0] == x);
        assert(!has_key::<T>(t, T::key(x)));
    } else if T::key(t[0]) == T::key(x) {
        assert(has_key::<T>(t, T::key(x)));
    } else if text_less(T::key(x), T::key(t[0])) {
        assert(r[0] == x);
        assert forall|i: int| 0 < i < r.len() implies text_less(T::key(x), T::key(#[trigger] r[i]))
            && t.contains(r[i]) by {
            assert(r[i] == t[i - 1]);
            if i > 1 {
                assert(text_less(T::key(t[0]), T::key(t[i - 1])));
                text_less_transitive(T::key(x), T::key(t[0]), T::key(t[i - 1]));
            }
        }
        assert forall|i: int, j: int| 0 <= i < j < r.len() implies text_less(
            T::key(#[trigger] r[i]),
            T::key(#[trigger] r[j]),
        ) by {
            if i > 0 {
                assert(r[i] == t[i - 1] && r[j] == t[j - 1]);
            }
        }
        assert forall|y: <T as DeepView>::V| t.contains(y) implies #[trigger] r.contains(y) by {
            let k = choose|k: int| 0 <= k < t.len() && t[k] == y;
            assert(r[k + 1] == y);
        }
        assert(!has_key::<T>(t, T::key(x))) by {
            if has_key::<T>(t, T::key(x)) {
                let k = choose|k: int| 0 <= k < t.len() && T::key(#[trigger] t[k]) == T::key(x);
                assert(r[k + 1] == t[k]);
                text_less_irreflexive(T::key(x));
            }
        }
    } else {
        let rest = t.drop_first();
        assert forall|i: int, j: int| 0 <= i < j < rest.len() implies text_less(
            T::key(#[trigger] rest[i]),
            T::key(#[trigger] rest[j]),
        ) by {
            assert(rest[i] == t[i + 1] && rest[j] == t[j + 1]);
        }
        entered_keeps_table::<T>(rest, x);
        let e = entered::<T>(rest, x);
        text_less_total(T::key(x), T::key(t[0]));
        assert forall|i: int| 0 <= i < e.len() implies text_less(T::key(t[0]), T::key(#[trigger] e[i]))
            && (e[i] == x || t.contains(e[i])) by {
            if e[i] != x {
                assert(rest.contains(e[i]));
                let k = choose|k: int| 0 <= k < rest.len() && rest[k] == e[i];
                assert(rest[k] == t[k + 1]);
            }
        }
        assert forall|i: int, j: int| 0 <= i < j < r.len() implies text_less(
            T::key(#[trigger] r[i]),
            T::key(#[trigger] r[j]),
        ) by {
            assert(r[j] == e[j - 1]);
            if i > 0 {
                assert(r[i] == e[i - 1]);
            }
        }
        assert forall|i: int| 0 <= i < r.len() implies (#[trigger] r[i] == x || t.contains(r[i])) by {
            if i > 0 {
                assert(r[i] == e[i - 1]);
            } else {
                assert(r[0] == t[0]);
            }
        }
        let k = choose|k: int| 0 <= k < e.len() && T::key(#[trigger] e[k]) == T::key(x);
        assert(r[k + 1] == e[k]);
        assert forall|y: <T as DeepView>::V| t.contains(y) implies #[trigger] r.contains(y) by {
            let k = choose|k: int| 0 <= k < t.len() && t[k] == y;
            if k == 0 {
                assert(r[0] == y);
            } else {
                assert(rest[k - 1] == y);
                assert(rest.contains(y));
                assert(e.contains(y));
                let m = choose|m: int| 0 <= m < e.len() && e[m] == y;
                assert(r[m + 1] == y);
            }
        }
        assert(has_key::<T>(rest, T::key(x)) == has_key::<T>(t, T::key(x))) by {
            if has_key::<T>(t, T::key(x)) {
                let m = choose|m: int| 0 <= m < t.len() && T::key(#[trigger] t[m]) == T::key(x);
                assert(rest[m - 1] == t[m]);
            }
            if has_key::<T>(rest, T::key(x)) {
                let m = choose|m: int|
                    0 <= m < rest.len() && T::key(#[trigger] rest[m]) == T::key(x);
                assert(t[m + 1] == rest[m]);
            }
        }
    }
}

/// Entering a record whose key is there changes nothing.
pub proof fn entered_keeps_what_is_there<T: Keyed>(
    t: Seq<<T as DeepView>::V>,
    x: <T as DeepView>::V,
)
    requires
        is_table::<T>(t),
        has_key::<T>(t, T::key(x)),
    ensures
        entered::<T>(t, x) == t,
    decreases t.len(),
{
    let k = choose|k: int| 0 <= k < t.len() && T::key(#[trigger] t[k]) == T::key(x);
    if k > 0 {
        assert(text_less(T::key(t[0]), T::key(t[k])));
        text_less_irreflexive(T::key(x));
        if text_less(T::key(x), T::key(t[0])) {
            text_less_transitive(T::key(x), T::key(t[0]), T::key(x));
        }
        let rest = t.drop_first();
        assert forall|i: int, j: int| 0 <= i < j < rest.len() implies text_less(
            T::key(#[trigger] rest[i]),
            T::key(#[trigger] rest[j]),
        ) by {
            assert(rest[i] == t[i + 1] && rest[j] == t[j + 1]);
        }
        assert(T::key(rest[k - 1]) == T::key(x));
        entered_keeps_what_is_there::<T>(rest, x);
        assert(seq![t[0]] + rest =~= t);
    }
}

/// Entering or replacing a record brings in no other one.
pub proof fn no_other_record_comes_in<T: Keyed>(t: Seq<<T as DeepView>::V>, x: <T as DeepView>::V)
    ensures
        forall|i: int|
            0 <= i < entered::<T>(t, x).len() ==> (#[trigger] entered::<T>(t, x)[i] == x
                || t.contains(entered::<T>(t, x)[i])),
        forall|i: int|
            0 <= i < replaced::<T>(t, x).len() ==> (#[trigger] replaced::<T>(t, x)[i] == x
                || t.contains(replaced::<T>(t, x)[i])),
    decreases t.len(),
{
    if t.len() > 0 {
        let rest = t.drop_first();
        no_other_record_comes_in::<T>(rest, x);
        assert forall|y: <T as DeepView>::V| #[trigger] rest.contains(y) implies t.contains(y) by {
            let k = choose|k: int| 0 <= k < rest.len() && rest[k] == y;
            assert(t[k + 1] == y);
        }
        let e = entered::<T>(t, x);
        assert forall|i: int| 0 <= i < e.len() implies (#[trigger] e[i] == x || t.contains(e[i])) by {
            if T::key(t[0]) != T::key(x) && !text_less(T::key(x), T::key(t[0])) && i > 0 {
                assert(e[i] == entered::<T>(rest, x)[i - 1]);
            }
        }
        let r = replaced::<T>(t, x);
        assert forall|i: int| 0 <= i < r.len() implies (#[trigger] r[i] == x || t.contains(r[i])) by {
            if T::key(t[0]) != T::key(x) && !text_less(T::key(x), T::key(t[0])) && i > 0 {
                assert(r[i] == replaced::<T>(rest, x)[i - 1]);
            }
        }
    }
}

/// Setting a record in a table leaves it a table, with this record under its key and all
/// others as they are.
pub proof fn replacing_sets_one_record<T: Keyed>(t: Seq<<T as DeepView>::V>, x: <T as DeepView>::V)
    requires
        is_table::<T>(t),
    ensures
        is_table::<T>(replaced::<T>(t, x)),
        replaced::<T>(t, x).contains(x),
        forall|y: <T as DeepView>::V|
            T::key(y) == T::key(x) && #[trigger] replaced::<T>(t, x).contains(y) ==> y == x,
        forall|y: <T as DeepView>::V|
            T::key(y) != T::key(x) ==> #[trigger] replaced::<T>(t, x).contains(y) == t.contains(y),
    decreases t.len(),
{
    let r = replaced::<T>(t, x);
    if t.len() == 0 {
        assert(r[0] == x);
    } else if T::key(t[0]) == T::key(x) {
        assert(r[0] == x);
        assert forall|i: int, j: int| 0 <= i < j < r.len() implies text_less(
            T::key(#[trigger] r[i]),
            T::key(#[trigger] r[j]),
        ) by {
            assert(text_less(T::key(t[i]), T::key(t[j])));
            assert(r[j] == t[j]);
            assert(T::key(r[i]) == T::key(t[i]));
        }
        assert forall|y: <T as DeepView>::V|
            T::key(y) == T::key(x) && #[trigger] r.contains(y) implies y == x by {
            let k = choose|k: int| 0 <= k < r.len() && r[k] == y;
            if k > 0 {
                assert(text_less(T::key(t[0]), T::key(t[k])));
                text_less_irreflexive(T::key(x));
            }
        }
        assert forall|y: <T as DeepView>::V| T::key(y) != T::key(x) implies #[trigger] r.contains(y)
            == t.contains(y) by {
            if r.contains(y) {
                let k = choose|k: int| 0 <= k < r.len() && r[k] == y;
                assert(t[k] == y);
            }
            if t.contains(y) {
                let k = choose|k: int| 0 <= k < t.len() && t[k] == y;
                assert(r[k] == y);
            }
        }
    } else if text_less(T::key(x), T::key(t[0])) {
        assert(r[0] == x);
        assert forall|i: int| 0 < i < r.len() implies text_less(T::key(x), T::key(#[trigger] r[i]))
            && r[i] == t[i - 1] by {
            assert(r[i] == t[i - 1]);
            if i > 1 {
                assert(text_less(T::key(t[0]), T::key(t[i - 1])));
                text_less_transitive(T::key(x), T::key(t[0]), T::key(t[i - 1]));
            }
        }
        assert forall|i: int, j: int| 0 <= i < j < r.len() implies text_less(
            T::key(#[trigger] r[i]),
            T::key(#[trigger] r[j]),
        ) by {
            if i > 0 {
                assert(text_less(T::key(t[i - 1]), T::key(t[j - 1])));
            }
        }
        assert forall|y: <T as DeepView>::V|
            T::key(y) == T::key(x) && #[trigger] r.contains(y) implies y == x by {
            let k = choose|k: int| 0 <= k < r.len() && r[k] == y;
            text_less_irreflexive(T::key(x));
            assert(k == 0);
        }
        assert forall|y: <T as DeepView>::V| T::key(y) != T::key(x) implies #[trigger] r.contains(y)
            == t.contains(y) by {
            if r.contains(y) {
                let k = choose|k: int| 0 <= k < r.len() && r[k] == y;
                assert(t[k - 1] == y);
            }
            if t.contains(y) {
                let k = choose|k: int| 0 <= k < t.len() && t[k] == y;
                assert(r[k + 1] == y);
            }
        }
    } else {
        let rest = t.drop_first();
        assert forall|i: int, j: int| 0 <= i < j < rest.len() implies text_less(
            T::key(#[trigger] rest[i]),
            T::key(#[trigger] rest[j]),
        ) by {
            assert(rest[i] == t[i + 1] && rest[j] == t[j + 1]);
        }
        replacing_sets_one_record::<T>(rest, x);
        let e = replaced::<T>(rest, x);
        text_less_total(T::key(x), T::key(t[0]));
        assert forall|i: int| 0 <= i < e.len() implies text_less(
            T::key(t[0]),
            T::key(#[trigger] e[i]),
        ) by {
            assert(e.contains(e[i]));
            if T::key(e[i]) != T::key(x) {
                assert(rest.contains(e[i]));
                let k = choose|k: int| 0 <= k < rest.len() && rest[k] == e[i];
                assert(text_less(T::key(t[0]), T::key(t[k + 1])));
            }
        }
        assert forall|i: int, j: int| 0 <= i < j < r.len() implies text_less(
            T::key(#[trigger] r[i]),
            T::key(#[trigger] r[j]),
        ) by {
            assert(r[j] == e[j - 1]);
            if i > 0 {
                assert(r[i] == e[i - 1]);
            }
        }
        assert forall|y: <T as DeepView>::V| #[trigger] r.contains(y) == (y == t[0] || e.contains(
            y,
        )) by {
            if r.contains(y) {
                let k = choose|k: int| 0 <= k < r.len() && r[k] == y;
                if k > 0 {
                    assert(e[k - 1] == y);
                }
            }
            if e.contains(y) {
                let k = choose|k: int| 0 <= k < e.len() && e[k] == y;
                assert(r[k + 1] == y);
            }
            assert(r[0] == t[0]);
        }
        assert forall|y: <T as DeepView>::V| #[trigger] t.contains(y) == (y == t[0]
            || rest.contains(y)) by {
            if t.contains(y) {
                let k = choose|k: int| 0 <= k < t.len() && t[k] == y;
                if k > 0 {
                    assert(rest[k - 1] == y);
                }
            }
            if rest.contains(y) {
                let k = choose|k: int| 0 <= k < rest.len() && rest[k] == y;
                assert(t[k + 1] == y);
            }
            assert(t[0] == t[0]);
        }
        assert(r.contains(x));
    }
}

/// A record that is found by its key is there.
pub proof fn found_is_there<T: Keyed>(t: Seq<<T as DeepView>::V>, key: Seq<char>)
    ensures
        match record_at::<T>(t, key) {
            Some(x) => t.contains(x) && T::key(x) == key,
            None => !has_key::<T>(t, key),
        },
    decreases t.len(),
{
    if t.len() > 0 {
        if T::key(t[0]) == key {
            assert(t.contains(t[0]));
        } else {
            let rest = t.drop_first();
            found_is_there::<T>(rest, key);
            match record_at::<T>(rest, key) {
                Some(x) => {
                    let k = choose|k: int| 0 <= k < rest.len() && rest[k] == x;
                    assert(t[k + 1] == x);
                },
                None => {
                    if has_key::<T>(t, key) {
                        let k = choose|k: int| 0 <= k < t.len() && T::key(#[trigger] t[k]) == key;
                        assert(T::key(rest[k - 1]) == key);
                    }
                },
            }
        }
    }
}

/// Entering a record leaves every record in a list, and its key is there then.
pub proof fn entered_keeps_records<T: Keyed>(t: Seq<<T as DeepView>::V>, x: <T as DeepView>::V)
    ensures
        has_key::<T>(entered::<T>(t, x), T::key(x)),
        forall|y: <T as DeepView>::V| t.contains(y) ==> #[trigger] entered::<T>(t, x).contains(y),
    decreases t.len(),
{
    let e = entered::<T>(t, x);
    if t.len() == 0 || text_less(T::key(x), T::key(t[0])) && T::key(t[0]) != T::key(x) {
        assert(T::key(e[0]) == T::key(x));
        assert forall|y: <T as DeepView>::V| t.contains(y) implies #[trigger] e.contains(y) by {
            let k = choose|k: int| 0 <= k < t.len() && t[k] == y;
            assert(e[k + 1] == y);
        }
    } else if T::key(t[0]) != T::key(x) {
        let rest = t.drop_first();
        let r = entered::<T>(rest, x);
        entered_keeps_records::<T>(rest, x);
        let k = choose|k: int| 0 <= k < r.len() && T::key(#[trigger] r[k]) == T::key(x);
        assert(e[k + 1] == r[k]);
        assert forall|y: <T as DeepView>::V| t.contains(y) implies #[trigger] e.contains(y) by {
            let k = choose|k: int| 0 <= k < t.len() && t[k] == y;
            if k == 0 {
                assert(e[0] == y);
            } else {
                assert(rest[k - 1] == y);
                assert(rest.contains(y) && r.contains(y));
                let j = choose|j: int| 0 <= j < r.len() && r[j] == y;
                assert(e[j + 1] == y);
            }
        }
    }
}

/// The table of some records holds no other ones.
pub proof fn latest_are_records<T: Keyed>(s: Seq<<T as DeepView>::V>, x: <T as DeepView>::V)
    requires
        last_table::<T>(s).contains(x),
    ensures
        s.contains(x),
    decreases s.len(),
{
    if s.len() > 0 {
        let t = last_table::<T>(s.drop_last());
        no_other_record_comes_in::<T>(t, s.last());
        let r = replaced::<T>(t, s.last());
        let k = choose|k: int| 0 <= k < r.len() && r[k] == x;
        if r[k] == s.last() {
            assert(s[s.len() - 1] == x);
        } else {
            assert(t.contains(x));
            latest_are_records::<T>(s.drop_last(), x);
            let j = choose|j: int| 0 <= j < s.drop_last().len() && s.drop_last()[j] == x;
            assert(s[j] == x);
        }
    }
}

/// A key stands once in a table.
pub proof fn key_stands_once<T: Keyed>(t: Seq<<T as DeepView>::V>, i: int, j: int)
    requires
        is_table::<T>(t),
        0 <= i < t.len(),
        0 <= j < t.len(),
        T::key(t[i]) == T::key(t[j]),
    ensures
        i == j,
{
    text_less_irreflexive(T::key(t[i]));
    if i < j {
        assert(text_less(T::key(t[i]), T::key(t[j])));
    } else if j < i {
        assert(text_less(T::key(t[j]), T::key(t[i])));
    }
}

/// A table keeps its keys when a record is entered.
pub proof fn entered_keeps_keys<T: Keyed>(
    t: Seq<<T as DeepView>::V>,
    x: <T as DeepView>::V,
    key: Seq<char>,
)
    requires
        is_table::<T>(t),
        has_key::<T>(t, key),
    ensures
        has_key::<T>(entered::<T>(t, x), key),
{
    entered_keeps_table::<T>(t, x);
    let k = choose|k: int| 0 <= k < t.len() && T::key(#[trigger] t[k]) == key;
    assert(t.contains(t[k]));
    assert(entered::<T>(t, x).contains(t[k]));
    let j = choose|j: int| 0 <= j < entered::<T>(t, x).len() && entered::<T>(t, x)[j] == t[k];
    assert(T::key(entered::<T>(t, x)[j]) == key);
}

/// The table of some records is a table.
pub proof fn first_table_is_table<T: Keyed>(s: Seq<<T as DeepView>::V>)
    ensures
        is_table::<T>(first_table::<T>(s)),
    decreases s.len(),
{
    if s.len() > 0 {
        first_table_is_table::<T>(s.drop_last());
        entered_keeps_table::<T>(first_table::<T>(s.drop_last()), s.last());
    }
}

proof fn entered_behind<T: Keyed>(t: Seq<<T as DeepView>::V>, x: <T as DeepView>::V, i: int)
    requires
        0 <= i <= t.len(),
        forall|k: int| 0 <= k < i ==> text_less(T::key(#[trigger] t[k]), T::key(x)),
    ensures
        entered::<T>(t, x) == t.take(i) + entered::<T>(t.skip(i), x),
        replaced::<T>(t, x) == t.take(i) + replaced::<T>(t.skip(i), x),
    decreases i,
{
    if i == 0 {
        assert(t.skip(0) =~= t);
        assert(t.take(0) + entered::<T>(t, x) =~= entered::<T>(t, x));
        assert(t.take(0) + replaced::<T>(t, x) =~= replaced::<T>(t, x));
    } else {
        let key = T::key(x);
        assert(text_less(T::key(t[0]), key));
        text_less_irreflexive(key);
        if text_less(key, T::key(t[0])) {
            text_less_transitive(key, T::key(t[0]), key);
        }
        let rest = t.drop_first();
        assert forall|k: int| 0 <= k < i - 1 implies text_less(T::key(#[trigger] rest[k]), key) by {
            assert(rest[k] == t[k + 1]);
        }
        entered_behind::<T>(rest, x, i - 1);
        assert(rest.skip(i - 1) =~= t.skip(i));
        assert(seq![t[0]] + (rest.take(i - 1) + entered::<T>(t.skip(i), x)) =~= t.take(i)
            + entered::<T>(t.skip(i), x));
        assert(seq![t[0]] + (rest.take(i - 1) + replaced::<T>(t.skip(i), x)) =~= t.take(i)
            + replaced::<T>(t.skip(i), x));
    }
}

/// Where the keys before a place come before a key, and whether it stands there.
fn place_of<T: Keyed>(t: &Vec<T>, key: &String) -> (r: (usize, bool))
    ensures
        r.0 <= t@.len(),
        forall|k: int|
            0 <= k < r.0 ==> text_less(T::key(#[trigger] t.deep_view()[k]), key@),
        r.0 < t@.len() ==> !text_less(T::key(t.deep_view()[r.0 as int]), key@),
        r.1 == (r.0 < t@.len() && T::key(t.deep_view()[r.0 as int]) == key@),
{
    let ghost m = t.deep_view();
    let mut i: usize = 0;
    while i < t.len()
        invariant
            i <= t.len(),
            m == t.deep_view(),
            forall|k: int| 0 <= k < i ==> text_less(T::key(#[trigger] m[k]), key@),
        decreases t.len() - i,
    {
        assert(m[i as int] == t@[i as int].deep_view());
        if !text_before(t[i].key_text().as_str(), key.as_str()) {
            return (i, same_text(t[i].key_text().as_str(), key.as_str()));
        }
        i = i + 1;
    }
    (i, false)
}

/// Enters a record, unless its key is there.
pub fn enter<T: Keyed>(t: &mut Vec<T>, x: T)
    ensures
        final(t).deep_view() == entered::<T>(old(t).deep_view(), x.deep_view()),
{
    let ghost m = t.deep_view();
    let ghost v = x.deep_view();
    let (i, there) = place_of(t, x.key_text());
    proof {
        entered_behind::<T>(m, v, i as int);
        assert(m.skip(i as int).len() > 0 ==> m.skip(i as int)[0] == m[i as int]);
        if there {
            assert(m.take(i as int) + m.skip(i as int) =~= m);
        } else if i < m.len() {
            text_less_total(T::key(v), T::key(m[i as int]));
        } else {
            assert(m.skip(i as int).len() == 0);
        }
    }
    if !there {
        t.insert(i, x);
        assert(t.deep_view() =~= m.take(i as int) + (seq![v] + m.skip(i as int)));
        assert(i == m.len() ==> seq![v] + m.skip(i as int) =~= seq![v]);
    }
}

/// Where a key stands in a table, or where it would stand.
fn search<T: Keyed>(t: &Vec<T>, key: &str) -> (r: (usize, bool))
    requires
        is_table::<T>(t.deep_view()),
    ensures
        r.0 <= t@.len(),
        forall|k: int| 0 <= k < r.0 ==> text_less(T::key(#[trigger] t.deep_view()[k]), key@),
        forall|k: int|
            r.0 <= k < t@.len() ==> !text_less(T::key(#[trigger] t.deep_view()[k]), key@),
        r.1 == (r.0 < t@.len() && T::key(t.deep_view()[r.0 as int]) == key@),
{
    let ghost m = t.deep_view();
    let mut low: usize = 0;
    let mut high: usize = t.len();
    while low < high
        invariant
            low <= high <= t.len(),
            m == t.deep_view(),
            is_table::<T>(m),
            forall|k: int| 0 <= k < low ==> text_less(T::key(#[trigger] m[k]), key@),
            forall|k: int| high <= k < m.len() ==> !text_less(T::key(#[trigger] m[k]), key@),
        decreases high - low,
    {
        let mid: usize = low + (high - low) / 2;
        assert(m[mid as int] == t@[mid as int].deep_view());
        if text_before(t[mid].key_text().as_str(), key) {
            assert forall|k: int| 0 <= k <= mid implies text_less(T::key(#[trigger] m[k]), key@) by {
                if k < mid {
                    text_less_transitive(T::key(m[k]), T::key(m[mid as int]), key@);
                }
            }
            low = mid + 1;
        } else {
            assert forall|k: int| mid <= k < m.len() implies !text_less(
                T::key(#[trigger] m[k]),
                key@,
            ) by {
                if mid < k && text_less(T::key(m[k]), key@) {
                    text_less_transitive(T::key(m[mid as int]), T::key(m[k]), key@);
                }
            }
            high = mid;
        }
    }
    if low < t.len() {
        assert(m[low as int] == t@[low as int].deep_view());
        (low, same_text(t[low].key_text().as_str(), key))
    } else {
        (low, false)
    }
}

/// Enters a record into a table, unless its key is there, and says whether it was
/// entered.
pub fn enter_new<T: Keyed>(t: &mut Vec<T>, x: T) -> (r: bool)
    requires
        is_table::<T>(old(t).deep_view()),
    ensures
        final(t).deep_view() == entered::<T>(old(t).deep_view(), x.deep_view()),
        is_table::<T>(final(t).deep_view()),
        r == !has_key::<T>(old(t).deep_view(), T::key(x.deep_view())),
{
    let ghost m = t.deep_view();
    let ghost v = x.deep_view();
    let (i, there) = search(t, x.key_text().as_str());
    proof {
        entered_behind::<T>(m, v, i as int);
        entered_keeps_table::<T>(m, v);
        assert(m.skip(i as int).len() > 0 ==> m.skip(i as int)[0] == m[i as int]);
        if there {
            assert(m.take(i as int) + m.skip(i as int) =~= m);
            assert(T::key(m[i as int]) == T::key(v));
        } else {
            if i < m.len() {
                text_less_total(T::key(v), T::key(m[i as int]));
            } else {
                assert(m.skip(i as int).len() == 0);
            }
            if has_key::<T>(m, T::key(v)) {
                let k = choose|k: int| 0 <= k < m.len() && T::key(#[trigger] m[k]) == T::key(v);
                text_less_irreflexive(T::key(v));
                if k > i {
                    assert(text_less(T::key(m[i as int]), T::key(m[k])));
                }
            }
        }
    }
    if there {
        return false;
    }
    t.insert(i, x);
    assert(t.deep_view() =~= m.take(i as int) + (seq![v] + m.skip(i as int)));
    assert(i == m.len() ==> seq![v] + m.skip(i as int) =~= seq![v]);
    true
}

/// Whether two records of a list have the same key.
pub open spec fn repeats<T: Keyed>(s: Seq<<T as DeepView>::V>) -> bool {
    exists|i: int, j: int|
        0 <= i < j < s.len() && T::key(#[trigger] s[i]) == T::key(#[trigger] s[j])
}

/// Whether two records of a sorted list have the same key.
pub fn has_repeats<T: Keyed>(v: &Vec<T>) -> (r: bool)
    requires
        is_sorted::<T>(v.deep_view()),
    ensures
        r == repeats::<T>(v.deep_view()),
{
    let ghost m = v.deep_view();
    let mut i: usize = 1;
    while i < v.len()
        invariant
            1 <= i,
            m == v.deep_view(),
            is_sorted::<T>(m),
            forall|k: int| 0 < k < i && k < m.len() ==> T::key(m[k - 1]) != T::key(#[trigger] m[k]),
        decreases v.len() - i,
    {
        assert(m[i as int] == v@[i as int].deep_view());
        assert(m[i - 1] == v@[i - 1].deep_view());
        if same_text(v[i - 1].key_text().as_str(), v[i].key_text().as_str()) {
            return true;
        }
        i = i + 1;
    }
    proof {
        if repeats::<T>(m) {
            let (a, b) = choose|a: int, b: int|
                0 <= a < b < m.len() && T::key(#[trigger] m[a]) == T::key(#[trigger] m[b]);
            let next = m[a + 1];
            if a + 1 < b {
                text_less_total(T::key(m[a]), T::key(next));
            }
            assert(T::key(m[a + 1 - 1]) != T::key(m[a + 1]));
        }
    }
    false
}

/// Sets a record, instead of one with the same key.
pub fn replace<T: Keyed>(t: &mut Vec<T>, x: T)
    ensures
        final(t).deep_view() == replaced::<T>(old(t).deep_view(), x.deep_view()),
{
    let ghost m = t.deep_view();
    let ghost v = x.deep_view();
    let (i, there) = place_of(t, x.key_text());
    proof {
        entered_behind::<T>(m, v, i as int);
        assert(m.skip(i as int).len() > 0 ==> m.skip(i as int)[0] == m[i as int]);
        if there {
        } else if i < m.len() {
            text_less_total(T::key(v), T::key(m[i as int]));
        } else {
            assert(m.skip(i as int).len() == 0);
        }
    }
    if there {
        t[i] = x;
        assert(t.deep_view() =~= m.take(i as int) + m.skip(i as int).update(0, v));
    } else {
        t.insert(i, x);
        assert(t.deep_view() =~= m.take(i as int) + (seq![v] + m.skip(i as int)));
        assert(i == m.len() ==> seq![v] + m.skip(i as int) =~= seq![v]);
    }
}

/// Whether a list of records has a key.
pub fn contains_key<T: Keyed>(t: &Vec<T>, key: &str) -> (r: bool)
    ensures
        r == has_key::<T>(t.deep_view(), key@),
{
    let ghost m = t.deep_view();
    let mut i: usize = 0;
    while i < t.len()
        invariant
            i <= t.len(),
            m == t.deep_view(),
            forall|k: int| 0 <= k < i ==> T::key(#[trigger] m[k]) != key@,
        decreases t.len() - i,
    {
        assert(m[i as int] == t@[i as int].deep_view());
        if same_text(t[i].key_text().as_str(), key) {
            return true;
        }
        i = i + 1;
    }
    false
}

/// The first record with a key.
pub fn find_record<'a, T: Keyed>(t: &'a Vec<T>, key: &str) -> (r: Option<&'a T>)
    ensures
        r.deep_view() == record_at::<T>(t.deep_view(), key@),
{
    let ghost m = t.deep_view();
    let mut i: usize = 0;
    assert(m.skip(0) =~= m);
    while i < t.len()
        invariant
            i <= t.len(),
            m == t.deep_view(),
            record_at::<T>(m, key@) == record_at::<T>(m.skip(i as int), key@),
        decreases t.len() - i,
    {
        assert(m.skip(i as int)[0] == t@[i as int].deep_view());
        if same_text(t[i].key_text().as_str(), key) {
            return Some(&t[i]);
        }
        assert(m.skip(i as int).drop_first() =~= m.skip(i + 1));
        i = i + 1;
    }
    None
}

/// The table of some records, the first with each key.
pub fn table_of<T: Keyed>(v: &Vec<T>) -> (r: Vec<T>)
    ensures
        r.deep_view() == first_table::<T>(v.deep_view()),
{
    let ghost m = v.deep_view();
    let mut r: Vec<T> = Vec::new();
    let mut i: usize = 0;
    assert(r.deep_view() =~= first_table::<T>(m.take(0)));
    while i < v.len()
        invariant
            i <= v.len(),
            m == v.deep_view(),
            r.deep_view() == first_table::<T>(m.take(i as int)),
        decreases v.len() - i,
    {
        assert(m.take(i + 1).drop_last() =~= m.take(i as int));
        assert(m.take(i + 1).last() == v@[i as int].deep_view());
        enter(&mut r, v[i].copied());
        i = i + 1;
    }
    assert(m.take(m.len() as int) =~= m);
    r
}

/// The table of some records, the last with each key.
pub fn latest_table_of<T: Keyed>(v: &Vec<T>) -> (r: Vec<T>)
    ensures
        r.deep_view() == last_table::<T>(v.deep_view()),
{
    let ghost m = v.deep_view();
    let mut r: Vec<T> = Vec::new();
    let mut i: usize = 0;
    assert(r.deep_view() =~= last_table::<T>(m.take(0)));
    while i < v.len()
        invariant
            i <= v.len(),
            m == v.deep_view(),
            r.deep_view() == last_table::<T>(m.take(i as int)),
        decreases v.len() - i,
    {
        assert(m.take(i + 1).drop_last() =~= m.take(i as int));
        assert(m.take(i + 1).last() == v@[i as int].deep_view());
        replace(&mut r, v[i].copied());
        i = i + 1;
    }
    assert(m.take(m.len() as int) =~= m);
    r
}


/// A sorted list with a record put behind those whose key does not come after
/// its own.
pub open spec fn placed<T: Keyed>(
    s: Seq<<T as DeepView>::V>,
    x: <T as DeepView>::V,
) -> Seq<<T as DeepView>::V>
    decreases s.len(),
{
    if s.len() == 0 {
        seq![x]
    } else if text_less(T::key(x), T::key(s[0])) {
        seq![x] + s
    } else {
        seq![s[0]] + placed::<T>(s.drop_first(), x)
    }
}

/// The records in the order of their keys, those with one key as they were.
pub open spec fn sorted<T: Keyed>(s: Seq<<T as DeepView>::V>) -> Seq<<T as DeepView>::V>
    decreases s.len(),
{
    if s.len() == 0 {
        Seq::empty()
    } else {
        placed::<T>(sorted::<T>(s.drop_last()), s.last())
    }
}

/// Whether no key comes before one that stands in front of it.
pub open spec fn is_sorted<T: Keyed>(s: Seq<<T as DeepView>::V>) -> bool {
    forall|i: int, j: int|
        0 <= i < j < s.len() ==> !text_less(T::key(#[trigger] s[j]), T::key(#[trigger] s[i]))
}

proof fn placed_behind<T: Keyed>(s: Seq<<T as DeepView>::V>, x: <T as DeepView>::V, i: int)
    requires
        0 <= i <= s.len(),
        forall|k: int| 0 <= k < i ==> !text_less(T::key(x), T::key(#[trigger] s[k])),
    ensures
        placed::<T>(s, x) == s.take(i) + placed::<T>(s.skip(i), x),
    decreases i,
{
    if i == 0 {
        assert(s.skip(0) =~= s);
        assert(s.take(0) + placed::<T>(s, x) =~= placed::<T>(s, x));
    } else {
        assert(!text_less(T::key(x), T::key(s[0])));
        let rest = s.drop_first();
        assert forall|k: int| 0 <= k < i - 1 implies !text_less(T::key(x), T::key(#[trigger] rest[k])) by {
            assert(rest[k] == s[k + 1]);
        }
        placed_behind::<T>(rest, x, i - 1);
        assert(rest.skip(i - 1) =~= s.skip(i));
        assert(seq![s[0]] + (rest.take(i - 1) + placed::<T>(s.skip(i), x)) =~= s.take(i)
            + placed::<T>(s.skip(i), x));
    }
}

/// A placed record is added to the others, and the list stays sorted.
proof fn placed_keeps_sorted<T: Keyed>(s: Seq<<T as DeepView>::V>, x: <T as DeepView>::V)
    requires
        is_sorted::<T>(s),
    ensures
        is_sorted::<T>(placed::<T>(s, x)),
        placed::<T>(s, x).to_multiset() == s.to_multiset().insert(x),
        forall|k: int|
            0 <= k < placed::<T>(s, x).len() ==> (#[trigger] placed::<T>(s, x)[k] == x || s.contains(
                placed::<T>(s, x)[k],
            )),
    decreases s.len(),
{
    broadcast use vstd::seq_lib::group_to_multiset_ensures;

    let r = placed::<T>(s, x);
    if s.len() == 0 {
        assert(r =~= Seq::empty().push(x));
        assert(s =~= Seq::empty());
    } else if text_less(T::key(x), T::key(s[0])) {
        assert forall|k: int| 0 < k < r.len() implies r[k] == s[k - 1] && s.contains(
            #[trigger] r[k],
        ) by {}
        assert forall|i: int, j: int| 0 <= i < j < r.len() implies !text_less(
            T::key(#[trigger] r[j]),
            T::key(#[trigger] r[i]),
        ) by {
            assert(r[j] == s[j - 1]);
            if i > 0 {
                assert(r[i] == s[i - 1]);
            } else if text_less(T::key(s[j - 1]), T::key(x)) {
                text_less_transitive(T::key(s[j - 1]), T::key(x), T::key(s[0]));
                if j - 1 == 0 {
                    text_less_irreflexive(T::key(s[0]));
                } else {
                    assert(!text_less(T::key(s[j - 1]), T::key(s[0])));
                }
            }
        }
        assert(r =~= s.insert(0, x));
        vstd::seq_lib::to_multiset_insert(s, 0, x);
    } else {
        let rest = s.drop_first();
        assert forall|i: int, j: int| 0 <= i < j < rest.len() implies !text_less(
            T::key(#[trigger] rest[j]),
            T::key(#[trigger] rest[i]),
        ) by {
            assert(rest[i] == s[i + 1] && rest[j] == s[j + 1]);
        }
        placed_keeps_sorted::<T>(rest, x);
        let e = placed::<T>(rest, x);
        assert forall|k: int| 0 < k < r.len() implies (#[trigger] r[k] == x || s.contains(r[k]))
            && !text_less(T::key(r[k]), T::key(s[0])) by {
            assert(r[k] == e[k - 1]);
            if e[k - 1] != x {
                assert(rest.contains(e[k - 1]));
                let m = choose|m: int| 0 <= m < rest.len() && rest[m] == e[k - 1];
                assert(rest[m] == s[m + 1]);
            }
        }
        assert(r[0] == s[0]);
        assert forall|i: int, j: int| 0 <= i < j < r.len() implies !text_less(
            T::key(#[trigger] r[j]),
            T::key(#[trigger] r[i]),
        ) by {
            assert(r[j] == e[j - 1]);
            if i > 0 {
                assert(r[i] == e[i - 1]);
            }
        }
        assert(r =~= e.insert(0, s[0]));
        vstd::seq_lib::to_multiset_insert(e, 0, s[0]);
        assert(s =~= rest.insert(0, s[0]));
        vstd::seq_lib::to_multiset_insert(rest, 0, s[0]);
        assert(r.to_multiset() =~= s.to_multiset().insert(x));
    }
}

/// Sorting gives the same records, in order.
pub proof fn sorted_is_sorted<T: Keyed>(s: Seq<<T as DeepView>::V>)
    ensures
        is_sorted::<T>(sorted::<T>(s)),
        sorted::<T>(s).to_multiset() == s.to_multiset(),
    decreases s.len(),
{
    broadcast use vstd::seq_lib::group_to_multiset_ensures;

    if s.len() > 0 {
        sorted_is_sorted::<T>(s.drop_last());
        placed_keeps_sorted::<T>(sorted::<T>(s.drop_last()), s.last());
        assert(s =~= s.drop_last().push(s.last()));
        assert(s.to_multiset() =~= s.drop_last().to_multiset().insert(s.last()));
    } else {
        assert(s =~= Seq::empty());
    }
}

/// Sorting leaves a sorted list as it is.
pub proof fn sorting_keeps_sorted<T: Keyed>(s: Seq<<T as DeepView>::V>)
    requires
        is_sorted::<T>(s),
    ensures
        sorted::<T>(s) == s,
    decreases s.len(),
{
    if s.len() > 0 {
        let before = s.drop_last();
        assert forall|i: int, j: int| 0 <= i < j < before.len() implies !text_less(
            T::key(#[trigger] before[j]),
            T::key(#[trigger] before[i]),
        ) by {
            assert(before[i] == s[i] && before[j] == s[j]);
        }
        sorting_keeps_sorted::<T>(before);
        assert forall|k: int| 0 <= k < before.len() implies !text_less(
            T::key(s.last()),
            T::key(#[trigger] before[k]),
        ) by {
            assert(before[k] == s[k]);
            assert(s[s.len() - 1] == s.last());
        }
        placed_behind::<T>(before, s.last(), before.len() as int);
        assert(before.take(before.len() as int) + seq![s.last()] =~= s);
    } else {
        assert(s =~= Seq::empty());
    }
}

/// The table of the records of a table is that table.
pub proof fn table_of_table<T: Keyed>(t: Seq<<T as DeepView>::V>)
    requires
        is_table::<T>(t),
    ensures
        first_table::<T>(t) == t,
    decreases t.len(),
{
    if t.len() > 0 {
        let before = t.drop_last();
        assert forall|i: int, j: int| 0 <= i < j < before.len() implies text_less(
            T::key(#[trigger] before[i]),
            T::key(#[trigger] before[j]),
        ) by {
            assert(before[i] == t[i] && before[j] == t[j]);
        }
        table_of_table::<T>(before);
        assert forall|k: int| 0 <= k < before.len() implies text_less(
            T::key(#[trigger] before[k]),
            T::key(t.last()),
        ) by {
            assert(before[k] == t[k]);
            assert(t[t.len() - 1] == t.last());
        }
        entered_behind::<T>(before, t.last(), before.len() as int);
        assert(before.skip(before.len() as int).len() == 0);
        assert(before.take(before.len() as int) + seq![t.last()] =~= t);
    } else {
        assert(t =~= Seq::empty());
    }
}

/// Two tables with the same records are the same.
pub proof fn tables_with_same_records<T: Keyed>(
    a: Seq<<T as DeepView>::V>,
    b: Seq<<T as DeepView>::V>,
)
    requires
        is_table::<T>(a),
        is_table::<T>(b),
        forall|x: <T as DeepView>::V| a.contains(x) <==> #[trigger] b.contains(x),
    ensures
        a == b,
    decreases a.len(),
{
    if a.len() == 0 {
        if b.len() > 0 {
            assert(b.contains(b[0]));
            assert(a.contains(b[0]));
        }
        assert(a =~= b);
    } else {
        assert(a.contains(a[0]));
        assert(b.contains(a[0]));
        let i = choose|i: int| 0 <= i < b.len() && b[i] == a[0];
        assert(b.contains(b[0]));
        assert(a.contains(b[0]));
        let j = choose|j: int| 0 <= j < a.len() && a[j] == b[0];
        if i > 0 && j > 0 {
            assert(text_less(T::key(b[0]), T::key(b[i])));
            assert(text_less(T::key(a[0]), T::key(a[j])));
            text_less_transitive(T::key(a[0]), T::key(b[0]), T::key(a[0]));
            text_less_irreflexive(T::key(a[0]));
        }
        assert(a[0] == b[0]);
        let x = a.drop_first();
        let y = b.drop_first();
        assert forall|p: int, q: int| 0 <= p < q < x.len() implies text_less(
            T::key(#[trigger] x[p]),
            T::key(#[trigger] x[q]),
        ) by {
            assert(x[p] == a[p + 1] && x[q] == a[q + 1]);
        }
        assert forall|p: int, q: int| 0 <= p < q < y.len() implies text_less(
            T::key(#[trigger] y[p]),
            T::key(#[trigger] y[q]),
        ) by {
            assert(y[p] == b[p + 1] && y[q] == b[q + 1]);
        }
        assert forall|r: <T as DeepView>::V| x.contains(r) <==> #[trigger] y.contains(r) by {
            if x.contains(r) {
                let p = choose|p: int| 0 <= p < x.len() && x[p] == r;
                assert(a[p + 1] == r);
                assert(a.contains(r));
                assert(b.contains(r));
                let q = choose|q: int| 0 <= q < b.len() && b[q] == r;
                if q == 0 {
                    assert(text_less(T::key(a[0]), T::key(a[p + 1])));
                    text_less_irreflexive(T::key(a[0]));
                }
                assert(y[q - 1] == r);
            }
            if y.contains(r) {
                let p = choose|p: int| 0 <= p < y.len() && y[p] == r;
                assert(b[p + 1] == r);
                assert(b.contains(r));
                assert(a.contains(r));
                let q = choose|q: int| 0 <= q < a.len() && a[q] == r;
                if q == 0 {
                    assert(text_less(T::key(b[0]), T::key(b[p + 1])));
                    text_less_irreflexive(T::key(b[0]));
                }
                assert(x[q - 1] == r);
            }
        }
        tables_with_same_records::<T>(x, y);
        assert(a =~= seq![a[0]] + x);
        assert(b =~= seq![b[0]] + y);
    }
}

proof fn comes_with<T: Keyed>(
    s: Seq<<T as DeepView>::V>,
    x: <T as DeepView>::V,
    i: int,
    j: int,
)
    requires
        is_sorted::<T>(s),
        0 <= i <= j < s.len(),
        text_less(T::key(x), T::key(s[i])),
    ensures
        text_less(T::key(x), T::key(s[j])),
{
    if i < j && T::key(s[i]) != T::key(s[j]) {
        text_less_total(T::key(s[i]), T::key(s[j]));
        text_less_transitive(T::key(x), T::key(s[i]), T::key(s[j]));
    }
}

/// Puts a record into a sorted list, behind those whose key does not come after
/// its own.
fn place<T: Keyed>(t: &mut Vec<T>, x: T)
    requires
        is_sorted::<T>(old(t).deep_view()),
    ensures
        final(t).deep_view() == placed::<T>(old(t).deep_view(), x.deep_view()),
{
    let ghost m = t.deep_view();
    let ghost v = x.deep_view();
    let mut low: usize = 0;
    let mut high: usize = t.len();
    while low < high
        invariant
            low <= high <= t.len(),
            m == t.deep_view(),
            v == x.deep_view(),
            is_sorted::<T>(m),
            forall|k: int| 0 <= k < low ==> !text_less(T::key(v), T::key(#[trigger] m[k])),
            forall|k: int| high <= k < m.len() ==> text_less(T::key(v), T::key(#[trigger] m[k])),
        decreases high - low,
    {
        let mid: usize = low + (high - low) / 2;
        assert(m[mid as int] == t@[mid as int].deep_view());
        if text_before(x.key_text().as_str(), t[mid].key_text().as_str()) {
            assert forall|k: int| mid <= k < m.len() implies text_less(T::key(v), T::key(#[trigger] m[k])) by {
                comes_with::<T>(m, v, mid as int, k);
            }
            high = mid;
        } else {
            assert forall|k: int| 0 <= k <= mid implies !text_less(T::key(v), T::key(#[trigger] m[k])) by {
                if text_less(T::key(v), T::key(m[k])) {
                    comes_with::<T>(m, v, k, mid as int);
                }
            }
            low = mid + 1;
        }
    }
    proof {
        placed_behind::<T>(m, v, low as int);
        assert(m.skip(low as int).len() > 0 ==> m.skip(low as int)[0] == m[low as int]);
    }
    t.insert(low, x);
    assert(t.deep_view() =~= m.take(low as int) + (seq![v] + m.skip(low as int)));
    assert(low == m.len() ==> seq![v] + m.skip(low as int) =~= seq![v]);
}

/// Whether the records of a list with the same key are the same.
pub open spec fn keys_tell_apart<T: Keyed>(s: Seq<<T as DeepView>::V>) -> bool {
    forall|i: int, j: int|
        0 <= i < s.len() && 0 <= j < s.len() && T::key(#[trigger] s[i]) == T::key(#[trigger] s[j])
            ==> s[i] == s[j]
}

proof fn first_records_agree<T: Keyed>(s: Seq<<T as DeepView>::V>, t: Seq<<T as DeepView>::V>)
    requires
        is_sorted::<T>(s),
        is_sorted::<T>(t),
        keys_tell_apart::<T>(s),
        s.len() > 0,
        t.len() > 0,
        s.contains(t[0]),
        t.contains(s[0]),
    ensures
        s[0] == t[0],
{
    let i = choose|i: int| 0 <= i < t.len() && t[i] == s[0];
    let j = choose|j: int| 0 <= j < s.len() && s[j] == t[0];
    if T::key(s[0]) != T::key(t[0]) {
        text_less_total(T::key(s[0]), T::key(t[0]));
        if text_less(T::key(s[0]), T::key(t[0])) {
            assert(!text_less(T::key(t[i]), T::key(t[0])));
        } else {
            assert(!text_less(T::key(s[j]), T::key(s[0])));
        }
    }
    assert(T::key(s[0]) == T::key(s[j]));
}

proof fn sorted_lists_agree<T: Keyed>(s: Seq<<T as DeepView>::V>, t: Seq<<T as DeepView>::V>)
    requires
        is_sorted::<T>(s),
        is_sorted::<T>(t),
        keys_tell_apart::<T>(s),
        s.to_multiset() == t.to_multiset(),
    ensures
        s == t,
    decreases s.len(),
{
    broadcast use vstd::seq_lib::group_to_multiset_ensures;

    assert(s.len() == s.to_multiset().len() && t.len() == t.to_multiset().len());
    if s.len() == 0 {
        assert(s =~= t);
    } else {
        assert(s.contains(s[0]) && t.contains(t[0]));
        assert(s.to_multiset().count(s[0]) > 0 && t.to_multiset().count(t[0]) > 0);
        assert(t.contains(s[0]) && s.contains(t[0]));
        first_records_agree::<T>(s, t);
        let x = s.drop_first();
        let y = t.drop_first();
        assert(s.remove(0) =~= x);
        assert(t.remove(0) =~= y);
        assert forall|i: int, j: int| 0 <= i < j < x.len() implies !text_less(
            T::key(#[trigger] x[j]),
            T::key(#[trigger] x[i]),
        ) by {
            assert(x[i] == s[i + 1] && x[j] == s[j + 1]);
        }
        assert forall|i: int, j: int| 0 <= i < j < y.len() implies !text_less(
            T::key(#[trigger] y[j]),
            T::key(#[trigger] y[i]),
        ) by {
            assert(y[i] == t[i + 1] && y[j] == t[j + 1]);
        }
        assert forall|i: int, j: int|
            0 <= i < x.len() && 0 <= j < x.len() && T::key(#[trigger] x[i]) == T::key(
                #[trigger] x[j],
            ) implies x[i] == x[j] by {
            assert(x[i] == s[i + 1] && x[j] == s[j + 1]);
        }
        sorted_lists_agree::<T>(x, y);
        assert(s =~= seq![s[0]] + x);
        assert(t =~= seq![t[0]] + y);
    }
}

/// The order of records makes no difference to their sorting, where those with the same key
/// are the same.
pub proof fn sorting_is_order_free<T: Keyed>(
    a: Seq<<T as DeepView>::V>,
    b: Seq<<T as DeepView>::V>,
)
    requires
        a.to_multiset() == b.to_multiset(),
        keys_tell_apart::<T>(a),
    ensures
        sorted::<T>(a) == sorted::<T>(b),
{
    broadcast use vstd::seq_lib::group_to_multiset_ensures;

    let s = sorted::<T>(a);
    sorted_is_sorted::<T>(a);
    sorted_is_sorted::<T>(b);
    assert forall|i: int, j: int|
        0 <= i < s.len() && 0 <= j < s.len() && T::key(#[trigger] s[i]) == T::key(
            #[trigger] s[j],
        ) implies s[i] == s[j] by {
        assert(s.contains(s[i]) && s.contains(s[j]));
        assert(a.to_multiset().count(s[i]) > 0 && a.to_multiset().count(s[j]) > 0);
        assert(a.contains(s[i]) && a.contains(s[j]));
        let p = choose|p: int| 0 <= p < a.len() && a[p] == s[i];
        let q = choose|q: int| 0 <= q < a.len() && a[q] == s[j];
        assert(T::key(a[p]) == T::key(a[q]));
    }
    sorted_lists_agree::<T>(s, sorted::<T>(b));
}

/// The records in the order of their keys, those with one key as they were.
pub fn sort<T: Keyed>(v: &Vec<T>) -> (r: Vec<T>)
    ensures
        r.deep_view() == sorted::<T>(v.deep_view()),
{
    let ghost m = v.deep_view();
    let mut r: Vec<T> = Vec::new();
    let mut i: usize = 0;
    assert(r.deep_view() =~= sorted::<T>(m.take(0)));
    while i < v.len()
        invariant
            i <= v.len(),
            m == v.deep_view(),
            r.deep_view() == sorted::<T>(m.take(i as int)),
        decreases v.len() - i,
    {
        assert(m.take(i + 1).drop_last() =~= m.take(i as int));
        assert(m.take(i + 1).last() == v@[i as int].deep_view());
        proof {
            sorted_is_sorted::<T>(m.take(i as int));
        }
        place(&mut r, v[i].copied());
        i = i + 1;
    }
    assert(m.take(m.len() as int) =~= m);
    r
}

/// The table of some records has their keys, and no other records.
pub proof fn table_holds_its_keys<T: Keyed>(s: Seq<<T as DeepView>::V>, x: <T as DeepView>::V)
    ensures
        first_table::<T>(s).contains(x) ==> s.contains(x),
        s.contains(x) ==> has_key::<T>(first_table::<T>(s), T::key(x)),
    decreases s.len(),
{
    if s.len() > 0 {
        let before = s.drop_last();
        let t = first_table::<T>(before);
        table_holds_its_keys::<T>(before, x);
        first_table_is_table::<T>(before);
        entered_keeps_table::<T>(t, s.last());
        let e = entered::<T>(t, s.last());
        if e.contains(x) && x != s.last() {
            let k = choose|k: int| 0 <= k < e.len() && e[k] == x;
            assert(t.contains(e[k]));
            let j = choose|j: int| 0 <= j < before.len() && before[j] == x;
            assert(s[j] == x);
        }
        if e.contains(x) && x == s.last() {
            assert(s[s.len() - 1] == x);
        }
        if s.contains(x) && x != s.last() {
            let j = choose|j: int| 0 <= j < s.len() && s[j] == x;
            assert(before[j] == x);
            assert(before.contains(x));
            let k = choose|k: int| 0 <= k < t.len() && T::key(#[trigger] t[k]) == T::key(x);
            assert(t.contains(t[k]));
            assert(e.contains(t[k]));
            let m = choose|m: int| 0 <= m < e.len() && e[m] == t[k];
            assert(T::key(e[m]) == T::key(x));
        }
    }
}

/// The table of some texts is that of any list with the same texts, in whatever order and
/// however often it has them.
pub proof fn tables_of_the_same_texts(a: Seq<Seq<char>>, b: Seq<Seq<char>>)
    requires
        forall|x: Seq<char>| a.contains(x) <==> #[trigger] b.contains(x),
    ensures
        first_table::<String>(a) == first_table::<String>(b),
        is_table::<String>(first_table::<String>(a)),
{
    let ta = first_table::<String>(a);
    let tb = first_table::<String>(b);
    first_table_is_table::<String>(a);
    first_table_is_table::<String>(b);
    assert forall|x: Seq<char>| ta.contains(x) <==> #[trigger] tb.contains(x) by {
        table_holds_its_keys::<String>(a, x);
        table_holds_its_keys::<String>(b, x);
        assert(a.contains(x) <==> b.contains(x));
        if b.contains(x) {
            let i = choose|i: int| 0 <= i < ta.len() && String::key(#[trigger] ta[i]) == String::key(x);
            let j = choose|j: int| 0 <= j < tb.len() && String::key(#[trigger] tb[j]) == String::key(x);
            assert(ta[i] == x && tb[j] == x);
        }
    }
    tables_with_same_records::<String>(ta, tb);
}

} // verus!
