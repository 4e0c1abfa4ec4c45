//! Records in an order that goes by several parts, and lists that keep it.

use vstd::prelude::*;
use vstd::string::*;

use crate::json::{Json, JsonModel};
use crate::record::Record;
use crate::text::{
    same_text, text_before, text_less, text_less_irreflexive, text_less_total, text_less_transitive,
};

verus! {

/// A part of what a record is ordered by: nothing, a number or a text, which come
/// in this order.
#[derive(Debug, PartialEq, Eq)]
pub enum Part {
    Absent,
    Num(u64),
    Text(String),
}

/// The model of a [`Part`].
pub enum PartModel {
    Absent,
    Num(u64),
    Text(Seq<char>),
}

impl DeepView for Part {
    type V = PartModel;

    open spec fn deep_view(&self) -> PartModel {
        match self {
            Part::Absent => PartModel::Absent,
            Part::Num(n) => PartModel::Num(*n),
            Part::Text(s) => PartModel::Text(s@),
        }
    }
}

impl Record for Part {
    open spec fn json(v: PartModel) -> JsonModel {
        match v {
            PartModel::Absent => JsonModel::Null,
            PartModel::Num(n) => JsonModel::Uint(n),
            PartModel::Text(s) => JsonModel::Str(s),
        }
    }

    fn copied(&self) -> (r: Part) {
        match self {
            Part::Absent => Part::Absent,
            Part::Num(n) => Part::Num(*n),
            Part::Text(s) => Part::Text(s.clone()),
        }
    }

    fn same_as(&self, other: &Part) -> (r: bool) {
        match (self, other) {
            (Part::Absent, Part::Absent) => true,
            (Part::Num(a), Part::Num(b)) => *a == *b,
            (Part::Text(a), Part::Text(b)) => same_text(a.as_str(), b.as_str()),
            _ => false,
        }
    }

    fn to_json(&self) -> (r: Json) {
        match self {
            Part::Absent => Json::Null,
            Part::Num(n) => Json::Uint(*n),
            Part::Text(s) => Json::Str(s.clone()),
        }
    }
}

/// The part of an optional text.
pub open spec fn text_part(s: Option<Seq<char>>) -> PartModel {
    match s {
        Some(s) => PartModel::Text(s),
        None => PartModel::Absent,
    }
}

/// The part of an optional text.
pub fn optional_text(s: &Option<String>) -> (r: Part)
    ensures
        r.deep_view() == text_part(s.deep_view()),
{
    match s {
        Some(s) => Part::Text(s.clone()),
        None => Part::Absent,
    }
}

/// The part of an optional number.
pub open spec fn num_part(n: Option<u64>) -> PartModel {
    match n {
        Some(n) => PartModel::Num(n),
        None => PartModel::Absent,
    }
}

/// The part of an optional number.
pub fn optional_num(n: &Option<u64>) -> (r: Part)
    ensures
        r.deep_view() == num_part(n.deep_view()),
{
    match n {
        Some(n) => Part::Num(*n),
        None => Part::Absent,
    }
}

/// The order of parts.
pub open spec fn part_less(a: PartModel, b: PartModel) -> bool {
    match (a, b) {
        (PartModel::Absent, PartModel::Num(_)) => true,
        (PartModel::Absent, PartModel::Text(_)) => true,
        (PartModel::Num(x), PartModel::Num(y)) => x < y,
        (PartModel::Num(_), PartModel::Text(_)) => true,
        (PartModel::Text(x), PartModel::Text(y)) => text_less(x, y),
        _ => false,
    }
}

/// The lexicographic order of lists of parts.
pub open spec fn parts_less(a: Seq<PartModel>, b: Seq<PartModel>) -> bool
    decreases a.len(),
{
    if b.len() == 0 {
        false
    } else if a.len() == 0 {
        true
    } else if a[0] != b[0] {
        part_less(a[0], b[0])
    } else {
        parts_less(a.drop_first(), b.drop_first())
    }
}

proof fn part_less_laws(a: PartModel, b: PartModel, c: PartModel)
    ensures
        !part_less(a, a),
        part_less(a, b) && part_less(b, c) ==> part_less(a, c),
        a != b ==> part_less(a, b) || part_less(b, a),
        part_less(a, b) ==> !part_less(b, a),
{
    if let PartModel::Text(x) = a {
        text_less_irreflexive(x);
        if let PartModel::Text(y) = b {
            if x != y {
                text_less_total(x, y);
            }
            if text_less(x, y) && text_less(y, x) {
                text_less_transitive(x, y, x);
            }
            if let PartModel::Text(z) = c {
                if text_less(x, y) && text_less(y, z) {
                    text_less_transitive(x, y, z);
                }
            }
        }
    }
}

/// No list of parts comes before itself.
pub proof fn parts_less_irreflexive(a: Seq<PartModel>)
    ensures
        !parts_less(a, a),
    decreases a.len(),
{
    if a.len() > 0 {
        parts_less_irreflexive(a.drop_first());
    }
}

/// The order of lists of parts is transitive.
pub proof fn parts_less_transitive(a: Seq<PartModel>, b: Seq<PartModel>, c: Seq<PartModel>)
    requires
        parts_less(a, b),
        parts_less(b, c),
    ensures
        parts_less(a, c),
    decreases a.len(),
{
    if a.len() > 0 {
        part_less_laws(a[0], b[0], c[0]);
        part_less_laws(b[0], c[0], a[0]);
        if a[0] == b[0] && b[0] == c[0] {
            parts_less_transitive(a.drop_first(), b.drop_first(), c.drop_first());
        }
    }
}

/// Two different lists of parts are ordered one way or the other.
pub proof fn parts_less_total(a: Seq<PartModel>, b: Seq<PartModel>)
    requires
        a != b,
    ensures
        parts_less(a, b) || parts_less(b, a),
    decreases a.len(),
{
    if a.len() == 0 {
        assert(b.len() > 0) by {
            if b.len() == 0 {
                assert(a =~= b);
            }
        }
    } else if b.len() > 0 {
        part_less_laws(a[0], b[0], a[0]);
        if a[0] == b[0] {
            assert(a.drop_first() != b.drop_first()) by {
                if a.drop_first() == b.drop_first() {
                    assert(a =~= seq![a[0]] + a.drop_first());
                    assert(b =~= seq![b[0]] + b.drop_first());
                }
            }
            parts_less_total(a.drop_first(), b.drop_first());
        }
    }
}

fn part_before(a: &Part, b: &Part) -> (r: bool)
    ensures
        r == part_less(a.deep_view(), b.deep_view()),
{
    match (a, b) {
        (Part::Absent, Part::Num(_)) => true,
        (Part::Absent, Part::Text(_)) => true,
        (Part::Num(x), Part::Num(y)) => *x < *y,
        (Part::Num(_), Part::Text(_)) => true,
        (Part::Text(x), Part::Text(y)) => text_before(x.as_str(), y.as_str()),
        _ => false,
    }
}

/// Whether one list of parts comes before another.
pub fn parts_before(a: &Vec<Part>, b: &Vec<Part>) -> (r: bool)
    ensures
        r == parts_less(a.deep_view(), b.deep_view()),
{
    let ghost m = a.deep_view();
    let ghost n = b.deep_view();
    let mut i: usize = 0;
    proof {
        assert(m.skip(0) =~= m);
        assert(n.skip(0) =~= n);
    }
    while i < a.len() && i < b.len()
        invariant
            i <= a.len(),
            i <= b.len(),
            m == a.deep_view(),
            n == b.deep_view(),
            parts_less(m, n) == parts_less(m.skip(i as int), n.skip(i as int)),
        decreases a.len() - i,
    {
        proof {
            assert(m.skip(i as int)[0] == a@[i as int].deep_view());
            assert(n.skip(i as int)[0] == b@[i as int].deep_view());
            assert(m.skip(i as int).drop_first() =~= m.skip(i + 1));
            assert(n.skip(i as int).drop_first() =~= n.skip(i + 1));
        }
        if !a[i].same_as(&b[i]) {
            return part_before(&a[i], &b[i]);
        }
        i = i + 1;
    }
    i < b.len()
}

/// A record with an order that goes by several parts.
pub trait Ordered: Record {
    /// What a model is ordered by.
    spec fn parts(v: <Self as DeepView>::V) -> Seq<PartModel>;

    /// What the record is ordered by.
    fn to_parts(&self) -> (r: Vec<Part>)
        ensures
            r.deep_view() == Self::parts(self.deep_view()),
    ;
}

/// Whether a record of a list has given parts.
pub open spec fn has_key<T: Ordered>(t: Seq<<T as DeepView>::V>, key: Seq<PartModel>) -> bool {
    exists|i: int| 0 <= i < t.len() && T::parts(#[trigger] t[i]) == key
}

/// The first record with a key.
pub open spec fn record_at<T: Ordered>(t: Seq<<T as DeepView>::V>, key: Seq<PartModel>) -> Option<
    <T as DeepView>::V,
>
    decreases t.len(),
{
    if t.len() == 0 {
        None
    } else if T::parts(t[0]) == key {
        Some(t[0])
    } else {
        record_at::<T>(t.drop_first(), key)
    }
}

/// The table with a record entered at its place, unless its key is there.
pub open spec fn entered<T: Ordered>(
    t: Seq<<T as DeepView>::V>,
    x: <T as DeepView>::V,
) -> Seq<<T as DeepView>::V>
    decreases t.len(),
{
    if t.len() == 0 {
        seq![x]
    } else if T::parts(t[0]) == T::parts(x) {
        t
    } else if parts_less(T::parts(x), T::parts(t[0])) {
        seq![x] + t
    } else {
        seq![t[0]] + entered::<T>(t.drop_first(), x)
    }
}

/// The table with a record set at its place, instead of one with the same key.
pub open spec fn replaced<T: Ordered>(
    t: Seq<<T as DeepView>::V>,
    x: <T as DeepView>::V,
) -> Seq<<T as DeepView>::V>
    decreases t.len(),
{
    if t.len() == 0 {
        seq![x]
    } else if T::parts(t[0]) == T::parts(x) {
        t.update(0, x)
    } else if parts_less(T::parts(x), T::parts(t[0])) {
        seq![x] + t
    } else {
        seq![t[0]] + replaced::<T>(t.drop_first(), x)
    }
}

/// The table of some records, the first with each key.
pub open spec fn first_table<T: Ordered>(s: Seq<<T as DeepView>::V>) -> Seq<<T as DeepView>::V>
    decreases s.len(),
{
    if s.len() == 0 {
        Seq::empty()
    } else {
        entered::<T>(first_table::<T>(s.drop_last()), s.last())
    }
}

/// The table of some records, the last with each key.
pub open spec fn last_table<T: Ordered>(s: Seq<<T as DeepView>::V>) -> Seq<<T as DeepView>::V>
    decreases s.len(),
{
    if s.len() == 0 {
        Seq::empty()
    } else {
        replaced::<T>(last_table::<T>(s.drop_last()), s.last())
    }
}

/// Whether the records stand in the order of their keys, each key once.
pub open spec fn is_table<T: Ordered>(t: Seq<<T as DeepView>::V>) -> bool {
    forall|i: int, j: int|
        0 <= i < j < t.len() ==> parts_less(T::parts(#[trigger] t[i]), T::parts(#[trigger] t[j]))
}

/// Entering a record keeps a table a table, adds no other record, and leaves
/// every record in it.
pub proof fn entered_keeps_table<T: Ordered>(t: Seq<<T as DeepView>::V>, x: <T as DeepView>::V)
    requires
        is_table::<T>(t),
    ensures
        is_table::<T>(entered::<T>(t, x)),
        has_key::<T>(entered::<T>(t, x), T::parts(x)),
        forall|i: int|
            0 <= i < entered::<T>(t, x).len() ==> (#[trigger] entered::<T>(t, x)[i] == x
                || t.contains(entered::<T>(t, x)[i])),
        forall|y: <T as DeepView>::V| t.contains(y) ==> #[trigger] entered::<T>(t, x).contains(y),
        entered::<T>(t, x).len() == t.len() + if has_key::<T>(t, T::parts(x)) {
            0nat
        } else {
            1nat
        },
    decreases t.len(),
{
    let r = entered::<T>(t, x);
    if t.len() == 0 {
        assert(r[0] == x);
        assert(!has_key::<T>(t, T::parts(x)));
    } else if T::parts(t[0]) == T::parts(x) {
        assert(has_key::<T>(t, T::parts(x)));
    } else if parts_less(T::parts(x), T::parts(t[0])) {
        assert(r[0] == x);
        assert forall|i: int| 0 < i < r.len() implies parts_less(T::parts(x), T::parts(#[trigger] r[i]))
            && t.contains(r[i]) by {
            assert(r[i] == t[i - 1]);
            if i > 1 {
                assert(parts_less(T::parts(t[0]), T::parts(t[i - 1])));
                parts_less_transitive(T::parts(x), T::parts(t[0]), T::parts(t[i - 1]));
            }
        }
        assert forall|i: int, j: int| 0 <= i < j < r.len() implies parts_less(
            T::parts(#[trigger] r[i]),
            T::parts(#[trigger] r[j]),
        ) by {
            if i > 0 {
                assert(r[i] == t[i - 1] && r[j] == t[j - 1]);
            }
        }
        assert forall|y: <T as DeepView>::V| t.contains(y) implies #[trigger] r.contains(y) by {
            let k = choose|k: int| 0 <= k < t.len() && t[k] == y;
            assert(r[k + 1] == y);
        }
        assert(!has_key::<T>(t, T::parts(x))) by {
            if has_key::<T>(t, T::parts(x)) {
                let k = choose|k: int| 0 <= k < t.len() && T::parts(#[trigger] t[k]) == T::parts(x);
                assert(r[k + 1] == t[k]);
                parts_less_irreflexive(T::parts(x));
            }
        }
    } else {
        let rest = t.drop_first();
        assert forall|i: int, j: int| 0 <= i < j < rest.len() implies parts_less(
            T::parts(#[trigger] rest[i]),
            T::parts(#[trigger] rest[j]),
        ) by {
            assert(rest[i] == t[i + 1] && rest[j] == t[j + 1]);
        }
        entered_keeps_table::<T>(rest, x);
        let e = entered::<T>(rest, x);
        parts_less_total(T::parts(x), T::parts(t[0]));
        assert forall|i: int| 0 <= i < e.len() implies parts_less(T::parts(t[0]), T::parts(#[trigger] e[i]))
            && (e[i] == x || t.contains(e[i])) by {
            if e[i] != x {
                assert(rest.contains(e[i]));
                let k = choose|k: int| 0 <= k < rest.len() && rest[k] == e[i];
                assert(rest[k] == t[k + 1]);
            }
        }
        assert forall|i: int, j: int| 0 <= i < j < r.len() implies parts_less(
            T::parts(#[trigger] r[i]),
            T::parts(#[trigger] r[j]),
        ) by {
            assert(r[j] == e[j - 1]);
            if i > 0 {
                assert(r[i] == e[i - 1]);
            }
        }
        assert forall|i: int| 0 <= i < r.len() implies (#[trigger] r[i] == x || t.contains(r[i])) by {
            if i > 0 {
                assert(r[i] == e[i - 1]);
            } else {
                assert(r[0] == t[0]);
            }
        }
        let k = choose|k: int| 0 <= k < e.len() && T::parts(#[trigger] e[k]) == T::parts(x);
        assert(r[k + 1] == e[k]);
        assert forall|y: <T as DeepView>::V| t.contains(y) implies #[trigger] r.contains(y) by {
            let k = choose|k: int| 0 <= k < t.len() && t[k] == y;
            if k == 0 {
                assert(r[0] == y);
            } else {
                assert(rest[k - 1] == y);
                assert(rest.contains(y));
                assert(e.contains(y));
                let m = choose|m: int| 0 <= m < e.len() && e[m] == y;
                assert(r[m + 1] == y);
            }
        }
        assert(has_key::<T>(rest, T::parts(x)) == has_key::<T>(t, T::parts(x))) by {
            if has_key::<T>(t, T::parts(x)) {
                let m = choose|m: int| 0 <= m < t.len() && T::parts(#[trigger] t[m]) == T::parts(x);
                assert(rest[m - 1] == t[m]);
            }
            if has_key::<T>(rest, T::parts(x)) {
                let m = choose|m: int|
                    0 <= m < rest.len() && T::parts(#[trigger] rest[m]) == T::parts(x);
                assert(t[m + 1] == rest[m]);
            }
        }
    }
}

/// Setting a record keeps a table a table, adds no other record, and is seen under its
/// key alone.
pub proof fn replaced_keeps_table<T: Ordered>(t: Seq<<T as DeepView>::V>, x: <T as DeepView>::V)
    requires
        is_table::<T>(t),
    ensures
        is_table::<T>(replaced::<T>(t, x)),
        forall|i: int|
            0 <= i < replaced::<T>(t, x).len() ==> (#[trigger] replaced::<T>(t, x)[i] == x
                || t.contains(replaced::<T>(t, x)[i])),
        forall|key: Seq<PartModel>| #[trigger]
            record_at::<T>(replaced::<T>(t, x), key) == if key == T::parts(x) {
                Some(x)
            } else {
                record_at::<T>(t, key)
            },
    decreases t.len(),
{
    let r = replaced::<T>(t, x);
    if t.len() == 0 {
        assert(r.drop_first() =~= Seq::empty());
    } else if T::parts(t[0]) == T::parts(x) {
        assert(r.drop_first() =~= t.drop_first());
        assert forall|i: int, j: int| 0 <= i < j < r.len() implies parts_less(
            T::parts(#[trigger] r[i]),
            T::parts(#[trigger] r[j]),
        ) by {
            assert(parts_less(T::parts(t[i]), T::parts(t[j])));
        }
        assert forall|i: int| 0 <= i < r.len() implies (#[trigger] r[i] == x || t.contains(r[i])) by {
            if i > 0 {
                assert(r[i] == t[i]);
            }
        }
    } else if parts_less(T::parts(x), T::parts(t[0])) {
        assert(r == entered::<T>(t, x));
        entered_keeps_table::<T>(t, x);
        assert(r.drop_first() =~= t);
    } else {
        let rest = t.drop_first();
        assert forall|i: int, j: int| 0 <= i < j < rest.len() implies parts_less(
            T::parts(#[trigger] rest[i]),
            T::parts(#[trigger] rest[j]),
        ) by {
            assert(rest[i] == t[i + 1] && rest[j] == t[j + 1]);
        }
        replaced_keeps_table::<T>(rest, x);
        let e = replaced::<T>(rest, x);
        assert(r.drop_first() =~= e);
        parts_less_total(T::parts(x), T::parts(t[0]));
        assert forall|i: int| 0 <= i < e.len() implies parts_less(T::parts(t[0]), T::parts(#[trigger] e[i]))
            && (e[i] == x || t.contains(e[i])) by {
            if e[i] != x {
                assert(rest.contains(e[i]));
                let k = choose|k: int| 0 <= k < rest.len() && rest[k] == e[i];
                assert(rest[k] == t[k + 1]);
            }
        }
        assert forall|i: int, j: int| 0 <= i < j < r.len() implies parts_less(
            T::parts(#[trigger] r[i]),
            T::parts(#[trigger] r[j]),
        ) by {
            assert(r[j] == e[j - 1]);
            if i > 0 {
                assert(r[i] == e[i - 1]);
            }
        }
        assert forall|i: int| 0 <= i < r.len() implies (#[trigger] r[i] == x || t.contains(r[i])) by {
            if i > 0 {
                assert(r[i] == e[i - 1]);
            } else {
                assert(r[0] == t[0]);
            }
        }
    }
    assert(r.len() > 0);
    let tail = r.drop_first();
    let rest = t.drop_first();
    assert forall|key: Seq<PartModel>| #[trigger] record_at::<T>(r, key) == if key == T::parts(x) {
        Some(x)
    } else {
        record_at::<T>(t, key)
    } by {
        assert(record_at::<T>(r, key) == if T::parts(r[0]) == key {
            Some(r[0])
        } else {
            record_at::<T>(tail, key)
        });
        if t.len() == 0 {
            assert(r[0] == x);
            assert(tail.len() == 0);
        } else if T::parts(t[0]) == T::parts(x) {
            assert(r[0] == x);
            assert(tail =~= rest);
        } else if parts_less(T::parts(x), T::parts(t[0])) {
            assert(r[0] == x);
            assert(tail =~= t);
        } else {
            assert(r[0] == t[0]);
            assert(tail =~= replaced::<T>(rest, x));
            assert(record_at::<T>(tail, key) == record_at::<T>(replaced::<T>(rest, x), key));
        }
    }
}

/// What is found under a key is a record of the list with that key.
pub proof fn record_has_its_key<T: Ordered>(t: Seq<<T as DeepView>::V>, key: Seq<PartModel>)
    ensures
        match record_at::<T>(t, key) {
            Some(x) => t.contains(x) && T::parts(x) == key,
            None => true,
        },
    decreases t.len(),
{
    if t.len() > 0 && T::parts(t[0]) != key {
        let rest = t.drop_first();
        record_has_its_key::<T>(rest, key);
        if let Some(x) = record_at::<T>(rest, key) {
            let k = choose|k: int| 0 <= k < rest.len() && rest[k] == x;
            assert(t[k + 1] == x);
        }
    } else if t.len() > 0 {
        assert(t[0] == record_at::<T>(t, key).unwrap());
    }
}

/// The table of some records is a table.
pub proof fn first_table_is_table<T: Ordered>(s: Seq<<T as DeepView>::V>)
    ensures
        is_table::<T>(first_table::<T>(s)),
    decreases s.len(),
{
    if s.len() > 0 {
        first_table_is_table::<T>(s.drop_last());
        entered_keeps_table::<T>(first_table::<T>(s.drop_last()), s.last());
    }
}

proof fn entered_behind<T: Ordered>(t: Seq<<T as DeepView>::V>, x: <T as DeepView>::V, i: int)
    requires
        0 <= i <= t.len(),
        forall|k: int| 0 <= k < i ==> parts_less(T::parts(#[trigger] t[k]), T::parts(x)),
    ensures
        entered::<T>(t, x) == t.take(i) + entered::<T>(t.skip(i), x),
        replaced::<T>(t, x) == t.take(i) + replaced::<T>(t.skip(i), x),
    decreases i,
{
    if i == 0 {
        assert(t.skip(0) =~= t);
        assert(t.take(0) + entered::<T>(t, x) =~= entered::<T>(t, x));
        assert(t.take(0) + replaced::<T>(t, x) =~= replaced::<T>(t, x));
    } else {
        let key = T::parts(x);
        assert(parts_less(T::parts(t[0]), key));
        parts_less_irreflexive(key);
        if parts_less(key, T::parts(t[0])) {
            parts_less_transitive(key, T::parts(t[0]), key);
        }
        let rest = t.drop_first();
        assert forall|k: int| 0 <= k < i - 1 implies parts_less(T::parts(#[trigger] rest[k]), key) by {
            assert(rest[k] == t[k + 1]);
        }
        entered_behind::<T>(rest, x, i - 1);
        assert(rest.skip(i - 1) =~= t.skip(i));
        assert(seq![t[0]] + (rest.take(i - 1) + entered::<T>(t.skip(i), x)) =~= t.take(i)
            + entered::<T>(t.skip(i), x));
        assert(seq![t[0]] + (rest.take(i - 1) + replaced::<T>(t.skip(i), x)) =~= t.take(i)
            + replaced::<T>(t.skip(i), x));
    }
}

/// Where the keys before a place come before a key, and whether it stands there.
fn place_of<T: Ordered>(t: &Vec<T>, key: &Vec<Part>) -> (r: (usize, bool))
    ensures
        r.0 <= t@.len(),
        forall|k: int|
            0 <= k < r.0 ==> parts_less(T::parts(#[trigger] t.deep_view()[k]), key.deep_view()),
        r.0 < t@.len() ==> !parts_less(T::parts(t.deep_view()[r.0 as int]), key.deep_view()),
        r.1 == (r.0 < t@.len() && T::parts(t.deep_view()[r.0 as int]) == key.deep_view()),
{
    let ghost m = t.deep_view();
    let mut i: usize = 0;
    while i < t.len()
        invariant
            i <= t.len(),
            m == t.deep_view(),
            forall|k: int| 0 <= k < i ==> parts_less(T::parts(#[trigger] m[k]), key.deep_view()),
        decreases t.len() - i,
    {
        assert(m[i as int] == t@[i as int].deep_view());
        if !parts_before(&t[i].to_parts(), key) {
            return (i, t[i].to_parts().same_as(key));
        }
        i = i + 1;
    }
    (i, false)
}

/// Enters a record, unless its key is there.
pub fn enter<T: Ordered>(t: &mut Vec<T>, x: T)
    ensures
        final(t).deep_view() == entered::<T>(old(t).deep_view(), x.deep_view()),
{
    let ghost m = t.deep_view();
    let ghost v = x.deep_view();
    let (i, there) = place_of(t, &x.to_parts());
    proof {
        entered_behind::<T>(m, v, i as int);
        assert(m.skip(i as int).len() > 0 ==> m.skip(i as int)[0] == m[i as int]);
        if there {
            assert(m.take(i as int) + m.skip(i as int) =~= m);
        } else if i < m.len() {
            parts_less_total(T::parts(v), T::parts(m[i as int]));
        } else {
            assert(m.skip(i as int).len() == 0);
        }
    }
    if !there {
        t.insert(i, x);
        assert(t.deep_view() =~= m.take(i as int) + (seq![v] + m.skip(i as int)));
        assert(i == m.len() ==> seq![v] + m.skip(i as int) =~= seq![v]);
    }
}

/// Sets a record, instead of one with the same key.
pub fn replace<T: Ordered>(t: &mut Vec<T>, x: T)
    ensures
        final(t).deep_view() == replaced::<T>(old(t).deep_view(), x.deep_view()),
{
    let ghost m = t.deep_view();
    let ghost v = x.deep_view();
    let (i, there) = place_of(t, &x.to_parts());
    proof {
        entered_behind::<T>(m, v, i as int);
        assert(m.skip(i as int).len() > 0 ==> m.skip(i as int)[0] == m[i as int]);
        if there {
        } else if i < m.len() {
            parts_less_total(T::parts(v), T::parts(m[i as int]));
        } else {
            assert(m.skip(i as int).len() == 0);
        }
    }
    if there {
        t[i] = x;
        assert(t.deep_view() =~= m.take(i as int) + m.skip(i as int).update(0, v));
    } else {
        t.insert(i, x);
        assert(t.deep_view() =~= m.take(i as int) + (seq![v] + m.skip(i as int)));
        assert(i == m.len() ==> seq![v] + m.skip(i as int) =~= seq![v]);
    }
}

/// Whether a list of records has a key.
pub fn contains_key<T: Ordered>(t: &Vec<T>, key: &Vec<Part>) -> (r: bool)
    ensures
        r == has_key::<T>(t.deep_view(), key.deep_view()),
{
    let ghost m = t.deep_view();
    let mut i: usize = 0;
    while i < t.len()
        invariant
            i <= t.len(),
            m == t.deep_view(),
            forall|k: int| 0 <= k < i ==> T::parts(#[trigger] m[k]) != key.deep_view(),
        decreases t.len() - i,
    {
        assert(m[i as int] == t@[i as int].deep_view());
        if t[i].to_parts().same_as(key) {
            return true;
        }
        i = i + 1;
    }
    false
}

/// The first record with a key.
pub fn find_record<'a, T: Ordered>(t: &'a Vec<T>, key: &Vec<Part>) -> (r: Option<&'a T>)
    ensures
        r.deep_view() == record_at::<T>(t.deep_view(), key.deep_view()),
{
    let ghost m = t.deep_view();
    let mut i: usize = 0;
    assert(m.skip(0) =~= m);
    while i < t.len()
        invariant
            i <= t.len(),
            m == t.deep_view(),
            record_at::<T>(m, key.deep_view()) == record_at::<T>(m.skip(i as int), key.deep_view()),
        decreases t.len() - i,
    {
        assert(m.skip(i as int)[0] == t@[i as int].deep_view());
        if t[i].to_parts().same_as(key) {
            return Some(&t[i]);
        }
        assert(m.skip(i as int).drop_first() =~= m.skip(i + 1));
        i = i + 1;
    }
    None
}

/// The table of some records, the first with each key.
pub fn table_of<T: Ordered>(v: &Vec<T>) -> (r: Vec<T>)
    ensures
        r.deep_view() == first_table::<T>(v.deep_view()),
{
    let ghost m = v.deep_view();
    let mut r: Vec<T> = Vec::new();
    let mut i: usize = 0;
    assert(r.deep_view() =~= first_table::<T>(m.take(0)));
    while i < v.len()
        invariant
            i <= v.len(),
            m == v.deep_view(),
            r.deep_view() == first_table::<T>(m.take(i as int)),
        decreases v.len() - i,
    {
        assert(m.take(i + 1).drop_last() =~= m.take(i as int));
        assert(m.take(i + 1).last() == v@[i as int].deep_view());
        enter(&mut r, v[i].copied());
        i = i + 1;
    }
    assert(m.take(m.len() as int) =~= m);
    r
}

/// The table of some records, the last with each key.
pub fn latest_table_of<T: Ordered>(v: &Vec<T>) -> (r: Vec<T>)
    ensures
        r.deep_view() == last_table::<T>(v.deep_view()),
{
    let ghost m = v.deep_view();
    let mut r: Vec<T> = Vec::new();
    let mut i: usize = 0;
    assert(r.deep_view() =~= last_table::<T>(m.take(0)));
    while i < v.len()
        invariant
            i <= v.len(),
            m == v.deep_view(),
            r.deep_view() == last_table::<T>(m.take(i as int)),
        decreases v.len() - i,
    {
        assert(m.take(i + 1).drop_last() =~= m.take(i as int));
        assert(m.take(i + 1).last() == v@[i as int].deep_view());
        replace(&mut r, v[i].copied());
        i = i + 1;
    }
    assert(m.take(m.len() as int) =~= m);
    r
}


/// A sorted list with a record put behind those whose key does not come after
/// its own.
pub open spec fn placed<T: Ordered>(
    s: Seq<<T as DeepView>::V>,
    x: <T as DeepView>::V,
) -> Seq<<T as DeepView>::V>
    decreases s.len(),
{
    if s.len() == 0 {
        seq![x]
    } else if parts_less(T::parts(x), T::parts(s[0])) {
        seq![x] + s
    } else {
        seq![s[0]] + placed::<T>(s.drop_first(), x)
    }
}

/// The records in the order of their keys, those with one key as they were.
pub open spec fn sorted<T: Ordered>(s: Seq<<T as DeepView>::V>) -> Seq<<T as DeepView>::V>
    decreases s.len(),
{
    if s.len() == 0 {
        Seq::empty()
    } else {
        placed::<T>(sorted::<T>(s.drop_last()), s.last())
    }
}

/// Whether no key comes before one that stands in front of it.
pub open spec fn is_sorted<T: Ordered>(s: Seq<<T as DeepView>::V>) -> bool {
    forall|i: int, j: int|
        0 <= i < j < s.len() ==> !parts_less(T::parts(#[trigger] s[j]), T::parts(#[trigger] s[i]))
}

proof fn placed_behind<T: Ordered>(s: Seq<<T as DeepView>::V>, x: <T as DeepView>::V, i: int)
    requires
        0 <= i <= s.len(),
        forall|k: int| 0 <= k < i ==> !parts_less(T::parts(x), T::parts(#[trigger] s[k])),
    ensures
        placed::<T>(s, x) == s.take(i) + placed::<T>(s.skip(i), x),
    decreases i,
{
    if i == 0 {
        assert(s.skip(0) =~= s);
        assert(s.take(0) + placed::<T>(s, x) =~= placed::<T>(s, x));
    } else {
        assert(!parts_less(T::parts(x), T::parts(s[0])));
        let rest = s.drop_first();
        assert forall|k: int| 0 <= k < i - 1 implies !parts_less(T::parts(x), T::parts(#[trigger] rest[k])) by {
            assert(rest[k] == s[k + 1]);
        }
        placed_behind::<T>(rest, x, i - 1);
        assert(rest.skip(i - 1) =~= s.skip(i));
        assert(seq![s[0]] + (rest.take(i - 1) + placed::<T>(s.skip(i), x)) =~= s.take(i)
            + placed::<T>(s.skip(i), x));
    }
}

/// A placed record is added to the others, and the list stays sorted.
proof fn placed_keeps_sorted<T: Ordered>(s: Seq<<T as DeepView>::V>, x: <T as DeepView>::V)
    requires
        is_sorted::<T>(s),
    ensures
        is_sorted::<T>(placed::<T>(s, x)),
        placed::<T>(s, x).to_multiset() == s.to_multiset().insert(x),
        forall|k: int|
            0 <= k < placed::<T>(s, x).len() ==> (#[trigger] placed::<T>(s, x)[k] == x || s.contains(
                placed::<T>(s, x)[k],
            )),
    decreases s.len(),
{
    broadcast use vstd::seq_lib::group_to_multiset_ensures;

    let r = placed::<T>(s, x);
    if s.len() == 0 {
        assert(r =~= Seq::empty().push(x));
        assert(s =~= Seq::empty());
    } else if parts_less(T::parts(x), T::parts(s[0])) {
        assert forall|k: int| 0 < k < r.len() implies r[k] == s[k - 1] && s.contains(
            #[trigger] r[k],
        ) by {}
        assert forall|i: int, j: int| 0 <= i < j < r.len() implies !parts_less(
            T::parts(#[trigger] r[j]),
            T::parts(#[trigger] r[i]),
        ) by {
            assert(r[j] == s[j - 1]);
            if i > 0 {
                assert(r[i] == s[i - 1]);
            } else if parts_less(T::parts(s[j - 1]), T::parts(x)) {
                parts_less_transitive(T::parts(s[j - 1]), T::parts(x), T::parts(s[0]));
                if j - 1 == 0 {
                    parts_less_irreflexive(T::parts(s[0]));
                } else {
                    assert(!parts_less(T::parts(s[j - 1]), T::parts(s[0])));
                }
            }
        }
        assert(r =~= s.insert(0, x));
        vstd::seq_lib::to_multiset_insert(s, 0, x);
    } else {
        let rest = s.drop_first();
        assert forall|i: int, j: int| 0 <= i < j < rest.len() implies !parts_less(
            T::parts(#[trigger] rest[j]),
            T::parts(#[trigger] rest[i]),
        ) by {
            assert(rest[i] == s[i + 1] && rest[j] == s[j + 1]);
        }
        placed_keeps_sorted::<T>(rest, x);
        let e = placed::<T>(rest, x);
        assert forall|k: int| 0 < k < r.len() implies (#[trigger] r[k] == x || s.contains(r[k]))
            && !parts_less(T::parts(r[k]), T::parts(s[0])) by {
            assert(r[k] == e[k - 1]);
            if e[k - 1] != x {
                assert(rest.contains(e[k - 1]));
                let m = choose|m: int| 0 <= m < rest.len() && rest[m] == e[k - 1];
                assert(rest[m] == s[m + 1]);
            }
        }
        assert(r[0] == s[0]);
        assert forall|i: int, j: int| 0 <= i < j < r.len() implies !parts_less(
            T::parts(#[trigger] r[j]),
            T::parts(#[trigger] r[i]),
        ) by {
            assert(r[j] == e[j - 1]);
            if i > 0 {
                assert(r[i] == e[i - 1]);
            }
        }
        assert(r =~= e.insert(0, s[0]));
        vstd::seq_lib::to_multiset_insert(e, 0, s[0]);
        assert(s =~= rest.insert(0, s[0]));
        vstd::seq_lib::to_multiset_insert(rest, 0, s[0]);
        assert(r.to_multiset() =~= s.to_multiset().insert(x));
    }
}

/// Sorting gives the same records, in order.
pub proof fn sorted_is_sorted<T: Ordered>(s: Seq<<T as DeepView>::V>)
    ensures
        is_sorted::<T>(sorted::<T>(s)),
        sorted::<T>(s).to_multiset() == s.to_multiset(),
    decreases s.len(),
{
    broadcast use vstd::seq_lib::group_to_multiset_ensures;

    if s.len() > 0 {
        sorted_is_sorted::<T>(s.drop_last());
        placed_keeps_sorted::<T>(sorted::<T>(s.drop_last()), s.last());
        assert(s =~= s.drop_last().push(s.last()));
        assert(s.to_multiset() =~= s.drop_last().to_multiset().insert(s.last()));
    } else {
        assert(s =~= Seq::empty());
    }
}

/// Sorting leaves a sorted list as it is.
pub proof fn sorting_keeps_sorted<T: Ordered>(s: Seq<<T as DeepView>::V>)
    requires
        is_sorted::<T>(s),
    ensures
        sorted::<T>(s) == s,
    decreases s.len(),
{
    if s.len() > 0 {
        let before = s.drop_last();
        assert forall|i: int, j: int| 0 <= i < j < before.len() implies !parts_less(
            T::parts(#[trigger] before[j]),
            T::parts(#[trigger] before[i]),
        ) by {
            assert(before[i] == s[i] && before[j] == s[j]);
        }
        sorting_keeps_sorted::<T>(before);
        assert forall|k: int| 0 <= k < before.len() implies !parts_less(
            T::parts(s.last()),
            T::parts(#[trigger] before[k]),
        ) by {
            assert(before[k] == s[k]);
            assert(s[s.len() - 1] == s.last());
        }
        placed_behind::<T>(before, s.last(), before.len() as int);
        assert(before.take(before.len() as int) + seq![s.last()] =~= s);
    } else {
        assert(s =~= Seq::empty());
    }
}

/// The table of the records of a table is that table.
pub proof fn table_of_table<T: Ordered>(t: Seq<<T as DeepView>::V>)
    requires
        is_table::<T>(t),
    ensures
        first_table::<T>(t) == t,
    decreases t.len(),
{
    if t.len() > 0 {
        let before = t.drop_last();
        assert forall|i: int, j: int| 0 <= i < j < before.len() implies parts_less(
            T::parts(#[trigger] before[i]),
            T::parts(#[trigger] before[j]),
        ) by {
            assert(before[i] == t[i] && before[j] == t[j]);
        }
        table_of_table::<T>(before);
        assert forall|k: int| 0 <= k < before.len() implies parts_less(
            T::parts(#[trigger] before[k]),
            T::parts(t.last()),
        ) by {
            assert(before[k] == t[k]);
            assert(t[t.len() - 1] == t.last());
        }
        entered_behind::<T>(before, t.last(), before.len() as int);
        assert(before.skip(before.len() as int).len() == 0);
        assert(before.take(before.len() as int) + seq![t.last()] =~= t);
    } else {
        assert(t =~= Seq::empty());
    }
}

/// Two tables with the same records are the same.
pub proof fn tables_with_same_records<T: Ordered>(
    a: Seq<<T as DeepView>::V>,
    b: Seq<<T as DeepView>::V>,
)
    requires
        is_table::<T>(a),
        is_table::<T>(b),
        forall|x: <T as DeepView>::V| a.contains(x) <==> #[trigger] b.contains(x),
    ensures
        a == b,
    decreases a.len(),
{
    if a.len() == 0 {
        if b.len() > 0 {
            assert(b.contains(b[0]));
            assert(a.contains(b[0]));
        }
        assert(a =~= b);
    } else {
        assert(a.contains(a[0]));
        assert(b.contains(a[0]));
        let i = choose|i: int| 0 <= i < b.len() && b[i] == a[0];
        assert(b.contains(b[0]));
        assert(a.contains(b[0]));
        let j = choose|j: int| 0 <= j < a.len() && a[j] == b[0];
        if i > 0 && j > 0 {
            assert(parts_less(T::parts(b[0]), T::parts(b[i])));
            assert(parts_less(T::parts(a[0]), T::parts(a[j])));
            parts_less_transitive(T::parts(a[0]), T::parts(b[0]), T::parts(a[0]));
            parts_less_irreflexive(T::parts(a[0]));
        }
        assert(a[0] == b[0]);
        let x = a.drop_first();
        let y = b.drop_first();
        assert forall|p: int, q: int| 0 <= p < q < x.len() implies parts_less(
            T::parts(#[trigger] x[p]),
            T::parts(#[trigger] x[q]),
        ) by {
            assert(x[p] == a[p + 1] && x[q] == a[q + 1]);
        }
        assert forall|p: int, q: int| 0 <= p < q < y.len() implies parts_less(
            T::parts(#[trigger] y[p]),
            T::parts(#[trigger] y[q]),
        ) by {
            assert(y[p] == b[p + 1] && y[q] == b[q + 1]);
        }
        assert forall|r: <T as DeepView>::V| x.contains(r) <==> #[trigger] y.contains(r) by {
            if x.contains(r) {
                let p = choose|p: int| 0 <= p < x.len() && x[p] == r;
                assert(a[p + 1] == r);
                assert(a.contains(r));
                assert(b.contains(r));
                let q = choose|q: int| 0 <= q < b.len() && b[q] == r;
                if q == 0 {
                    assert(parts_less(T::parts(a[0]), T::parts(a[p + 1])));
                    parts_less_irreflexive(T::parts(a[0]));
                }
                assert(y[q - 1] == r);
            }
            if y.contains(r) {
                let p = choose|p: int| 0 <= p < y.len() && y[p] == r;
                assert(b[p + 1] == r);
                assert(b.contains(r));
                assert(a.contains(r));
                let q = choose|q: int| 0 <= q < a.len() && a[q] == r;
                if q == 0 {
                    assert(parts_less(T::parts(b[0]), T::parts(b[p + 1])));
                    parts_less_irreflexive(T::parts(b[0]));
                }
                assert(x[q - 1] == r);
            }
        }
        tables_with_same_records::<T>(x, y);
        assert(a =~= seq![a[0]] + x);
        assert(b =~= seq![b[0]] + y);
    }
}

proof fn comes_with<T: Ordered>(
    s: Seq<<T as DeepView>::V>,
    x: <T as DeepView>::V,
    i: int,
    j: int,
)
    requires
        is_sorted::<T>(s),
        0 <= i <= j < s.len(),
        parts_less(T::parts(x), T::parts(s[i])),
    ensures
        parts_less(T::parts(x), T::parts(s[j])),
{
    if i < j && T::parts(s[i]) != T::parts(s[j]) {
        parts_less_total(T::parts(s[i]), T::parts(s[j]));
        parts_less_transitive(T::parts(x), T::parts(s[i]), T::parts(s[j]));
    }
}

/// Puts a record into a sorted list, behind those whose key does not come after
/// its own.
fn place<T: Ordered>(t: &mut Vec<T>, x: T)
    requires
        is_sorted::<T>(old(t).deep_view()),
    ensures
        final(t).deep_view() == placed::<T>(old(t).deep_view(), x.deep_view()),
{
    let ghost m = t.deep_view();
    let ghost v = x.deep_view();
    let key = x.to_parts();
    let mut low: usize = 0;
    let mut high: usize = t.len();
    while low < high
        invariant
            low <= high <= t.len(),
            m == t.deep_view(),
            v == x.deep_view(),
            key.deep_view() == T::parts(v),
            is_sorted::<T>(m),
            forall|k: int| 0 <= k < low ==> !parts_less(T::parts(v), T::parts(#[trigger] m[k])),
            forall|k: int| high <= k < m.len() ==> parts_less(T::parts(v), T::parts(#[trigger] m[k])),
        decreases high - low,
    {
        let mid: usize = low + (high - low) / 2;
        assert(m[mid as int] == t@[mid as int].deep_view());
        if parts_before(&key, &t[mid].to_parts()) {
            assert forall|k: int| mid <= k < m.len() implies parts_less(T::parts(v), T::parts(#[trigger] m[k])) by {
                comes_with::<T>(m, v, mid as int, k);
            }
            high = mid;
        } else {
            assert forall|k: int| 0 <= k <= mid implies !parts_less(T::parts(v), T::parts(#[trigger] m[k])) by {
                if parts_less(T::parts(v), T::parts(m[k])) {
                    comes_with::<T>(m, v, k, mid as int);
                }
            }
            low = mid + 1;
        }
    }
    proof {
        placed_behind::<T>(m, v, low as int);
        assert(m.skip(low as int).len() > 0 ==> m.skip(low as int)[0] == m[low as int]);
    }
    t.insert(low, x);
    assert(t.deep_view() =~= m.take(low as int) + (seq![v] + m.skip(low as int)));
    assert(low == m.len() ==> seq![v] + m.skip(low as int) =~= seq![v]);
}

/// The records in the order of their keys, those with one key as they were.
pub fn sort<T: Ordered>(v: &Vec<T>) -> (r: Vec<T>)
    ensures
        r.deep_view() == sorted::<T>(v.deep_view()),
{
    let ghost m = v.deep_view();
    let mut r: Vec<T> = Vec::new();
    let mut i: usize = 0;
    assert(r.deep_view() =~= sorted::<T>(m.take(0)));
    while i < v.len()
        invariant
            i <= v.len(),
            m == v.deep_view(),
            r.deep_view() == sorted::<T>(m.take(i as int)),
        decreases v.len() - i,
    {
        assert(m.take(i + 1).drop_last() =~= m.take(i as int));
        assert(m.take(i + 1).last() == v@[i as int].deep_view());
        proof {
            sorted_is_sorted::<T>(m.take(i as int));
        }
        place(&mut r, v[i].copied());
        i = i + 1;
    }
    assert(m.take(m.len() as int) =~= m);
    r
}

/// A table of some records has none but them, and the key of each of them.
pub proof fn table_holds_its_records<T: Ordered>(s: Seq<<T as DeepView>::V>, x: <T as DeepView>::V)
    ensures
        first_table::<T>(s).contains(x) ==> s.contains(x),
        s.contains(x) ==> has_key::<T>(first_table::<T>(s), T::parts(x)),
    decreases s.len(),
{
    if s.len() > 0 {
        let before = s.drop_last();
        let t = first_table::<T>(before);
        table_holds_its_records::<T>(before, x);
        first_table_is_table::<T>(before);
        entered_keeps_table::<T>(t, s.last());
        let e = entered::<T>(t, s.last());
        if e.contains(x) && x != s.last() {
            let k = choose|k: int| 0 <= k < e.len() && e[k] == x;
            assert(t.contains(e[k]));
            let j = choose|j: int| 0 <= j < before.len() && before[j] == x;
            assert(s[j] == x);
        }
        if e.contains(x) && x == s.last() {
            assert(s[s.len() - 1] == x);
        }
        if s.contains(x) && x != s.last() {
            let j = choose|j: int| 0 <= j < s.len() && s[j] == x;
            assert(before[j] == x);
            assert(before.contains(x));
            let k = choose|k: int| 0 <= k < t.len() && T::parts(#[trigger] t[k]) == T::parts(x);
            assert(t.contains(t[k]));
            assert(e.contains(t[k]));
            let m = choose|m: int| 0 <= m < e.len() && e[m] == t[k];
            assert(T::parts(e[m]) == T::parts(x));
        }
    }
}

/// Where no two records have one key, the table of some records holds them all and no
/// others, and is that of any list with the same records, in whatever order and however
/// often it has them.
pub proof fn tables_of_the_same_records<T: Ordered>(
    a: Seq<<T as DeepView>::V>,
    b: Seq<<T as DeepView>::V>,
)
    requires
        forall|x: <T as DeepView>::V| a.contains(x) <==> #[trigger] b.contains(x),
        forall|x: <T as DeepView>::V, y: <T as DeepView>::V| #[trigger]
            T::parts(x) == #[trigger] T::parts(y) ==> x == y,
    ensures
        first_table::<T>(a) == first_table::<T>(b),
        is_table::<T>(first_table::<T>(a)),
        forall|x: <T as DeepView>::V| a.contains(x) <==> #[trigger] first_table::<T>(a).contains(x),
{
    let ta = first_table::<T>(a);
    let tb = first_table::<T>(b);
    first_table_is_table::<T>(a);
    first_table_is_table::<T>(b);
    assert forall|x: <T as DeepView>::V|
        (a.contains(x) <==> #[trigger] ta.contains(x)) && (ta.contains(x) <==> tb.contains(x)) by {
        table_holds_its_records::<T>(a, x);
        table_holds_its_records::<T>(b, x);
        assert(a.contains(x) <==> b.contains(x));
        if b.contains(x) {
            let i = choose|i: int| 0 <= i < ta.len() && T::parts(#[trigger] ta[i]) == T::parts(x);
            let j = choose|j: int| 0 <= j < tb.len() && T::parts(#[trigger] tb[j]) == T::parts(x);
            assert(ta[i] == x && tb[j] == x);
        }
    }
    assert forall|x: <T as DeepView>::V| ta.contains(x) <==> #[trigger] tb.contains(x) by {
        assert(ta.contains(x) <==> tb.contains(x));
    }
    tables_with_same_records::<T>(ta, tb);
}

} // verus!
