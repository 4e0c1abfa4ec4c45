//! Canonical bytes tell JSON values apart: two values of null, truth values, unsigned
//! numbers, texts, arrays and objects with the same canonical bytes are the same.

use vstd::prelude::*;
use vstd::string::*;

use crate::json::{
    canonical_bytes, digit, digits, encoded, encoded_items, encoded_members, escaped, escaped_char,
    hex_sign, put, quoted, JsonModel, Members,
};
use crate::text::text_less;

verus! {

/// Whether a value is made of null, truth values, unsigned numbers and texts.
pub open spec fn is_plain(j: JsonModel) -> bool
    decreases j,
{
    match j {
        JsonModel::Int(_) => false,
        JsonModel::Decimal(_) => false,
        JsonModel::Arr(s) => forall|i: int| 0 <= i < s.len() ==> is_plain(#[trigger] s[i]),
        JsonModel::Obj(m) => forall|i: int| 0 <= i < m.len() ==> is_plain((#[trigger] m[i]).1),
        _ => true,
    }
}

/// Whether a text can follow a value.
spec fn stops(x: Seq<char>) -> bool {
    x.len() == 0 || x[0] == ',' || x[0] == ']' || x[0] == '}'
}

proof fn cancel(a: Seq<char>, x: Seq<char>, b: Seq<char>, y: Seq<char>)
    requires
        a + x == b + y,
        a.len() == b.len(),
    ensures
        a == b,
        x == y,
{
    assert forall|i: int| 0 <= i < a.len() implies a[i] == b[i] by {
        assert((a + x)[i] == a[i]);
        assert((b + y)[i] == b[i]);
    }
    assert(a =~= b);
    assert((a + x).len() == a.len() + x.len() && (b + y).len() == b.len() + y.len());
    assert(x.len() == y.len());
    assert forall|i: int| 0 <= i < x.len() implies x[i] == y[i] by {
        assert((a + x)[a.len() + i] == x[i]);
        assert((b + y)[b.len() + i] == y[i]);
    }
    assert(x =~= y);
}

proof fn escaped_from_the_front(s: Seq<char>, n: nat)
    requires
        1 <= n <= s.len(),
    ensures
        escaped(s, n) == escaped_char(s[0]) + escaped(s.drop_first(), (n - 1) as nat),
    decreases n,
{
    let rest = s.drop_first();
    if n == 1 {
        assert(escaped(s, 0) =~= Seq::empty());
        assert(escaped(s, 1) =~= escaped_char(s[0]) + escaped(rest, 0));
    } else {
        escaped_from_the_front(s, (n - 1) as nat);
        assert(rest[n - 2] == s[n - 1]);
        assert(escaped(s, n) =~= escaped_char(s[0]) + escaped(rest, (n - 1) as nat));
    }
}

proof fn hex_signs_apart(a: nat, b: nat)
    requires
        a < 16,
        b < 16,
        hex_sign(a) == hex_sign(b),
    ensures
        a == b,
{
    assert(digit(a) as nat == 48 + a);
    assert(digit(b) as nat == 48 + b);
}

proof fn characters_apart(c: char, d: char, x: Seq<char>, y: Seq<char>)
    requires
        escaped_char(c) + x == escaped_char(d) + y,
    ensures
        c == d,
        x == y,
{
    let u = escaped_char(c);
    let v = escaped_char(d);
    assert(u[0] == (u + x)[0] && v[0] == (v + y)[0]);
    if u[0] == '\\' {
        assert(u[1] == (u + x)[1] && v[1] == (v + y)[1]);
        if u[1] == 'u' {
            assert(u[4] == (u + x)[4] && v[4] == (v + y)[4]);
            assert(u[5] == (u + x)[5] && v[5] == (v + y)[5]);
            hex_signs_apart(c as nat / 16, d as nat / 16);
            hex_signs_apart(c as nat % 16, d as nat % 16);
        }
    }
    assert(c == d);
    cancel(u, x, v, y);
}

proof fn escaped_texts_apart(s: Seq<char>, t: Seq<char>, x: Seq<char>, y: Seq<char>)
    requires
        escaped(s, s.len()) + (seq!['"'] + x) == escaped(t, t.len()) + (seq!['"'] + y),
    ensures
        s == t,
        x == y,
    decreases s.len(),
{
    let q = seq!['"'];
    let left = escaped(s, s.len()) + (q + x);
    let right = escaped(t, t.len()) + (q + y);
    if s.len() > 0 {
        escaped_from_the_front(s, s.len());
        let rest = escaped(s.drop_first(), (s.len() - 1) as nat);
        assert(left =~= escaped_char(s[0]) + (rest + (q + x)));
        assert(left[0] == escaped_char(s[0])[0]);
    } else {
        assert(left =~= q + x);
        assert(left[0] == '"');
    }
    if t.len() > 0 {
        escaped_from_the_front(t, t.len());
        let rest = escaped(t.drop_first(), (t.len() - 1) as nat);
        assert(right =~= escaped_char(t[0]) + (rest + (q + y)));
        assert(right[0] == escaped_char(t[0])[0]);
    } else {
        assert(right =~= q + y);
        assert(right[0] == '"');
    }
    if s.len() == 0 {
        assert(t.len() == 0);
        assert(s =~= t);
        cancel(q, x, q, y);
    } else {
        assert(t.len() > 0);
        let a = escaped(s.drop_first(), (s.len() - 1) as nat) + (q + x);
        let b = escaped(t.drop_first(), (t.len() - 1) as nat) + (q + y);
        characters_apart(s[0], t[0], a, b);
        escaped_texts_apart(s.drop_first(), t.drop_first(), x, y);
        assert(s =~= seq![s[0]] + s.drop_first());
        assert(t =~= seq![t[0]] + t.drop_first());
    }
}

proof fn quoted_texts_apart(s: Seq<char>, t: Seq<char>, x: Seq<char>, y: Seq<char>)
    requires
        quoted(s) + x == quoted(t) + y,
    ensures
        s == t,
        x == y,
{
    reveal(quoted);
    let q = seq!['"'];
    let a = escaped(s, s.len()) + (q + x);
    let b = escaped(t, t.len()) + (q + y);
    assert(quoted(s) + x =~= q + a);
    assert(quoted(t) + y =~= q + b);
    cancel(q, a, q, b);
    escaped_texts_apart(s, t, x, y);
}

spec fn is_digit(c: char) -> bool {
    48 <= c as nat <= 57
}

proof fn digits_are_digits(n: nat)
    ensures
        digits(n).len() > 0,
        n >= 10 ==> digits(n).len() > 1,
        forall|i: int| 0 <= i < digits(n).len() ==> is_digit(#[trigger] digits(n)[i]),
    decreases n,
{
    if n >= 10 {
        digits_are_digits(n / 10);
    }
}

proof fn digits_apart(n: nat, m: nat)
    requires
        digits(n) == digits(m),
    ensures
        n == m,
    decreases n,
{
    digits_are_digits(n);
    digits_are_digits(m);
    assert(digits(n).last() == digits(m).last());
    if n >= 10 {
        assert(m >= 10);
        assert(digits(n).drop_last() =~= digits(n / 10));
        assert(digits(m).drop_last() =~= digits(m / 10));
        digits_apart(n / 10, m / 10);
        assert(digits(n).last() == digit(n % 10) && digits(m).last() == digit(m % 10));
        assert(digit(n % 10) as nat == 48 + n % 10);
        assert(digit(m % 10) as nat == 48 + m % 10);
    } else {
        assert(m < 10);
        assert(digits(n)[0] == digit(n) && digits(m)[0] == digit(m));
        assert(digit(n) as nat == 48 + n);
        assert(digit(m) as nat == 48 + m);
    }
}

proof fn numbers_apart(n: nat, m: nat, x: Seq<char>, y: Seq<char>)
    requires
        digits(n) + x == digits(m) + y,
        stops(x),
        stops(y),
    ensures
        n == m,
        x == y,
{
    digits_are_digits(n);
    digits_are_digits(m);
    let a = digits(n);
    let b = digits(m);
    assert((a + x).len() == (b + y).len());
    if a.len() < b.len() {
        assert((a + x)[a.len() as int] == x[0]);
        assert((b + y)[a.len() as int] == b[a.len() as int]);
        assert(is_digit(b[a.len() as int]));
    } else if b.len() < a.len() {
        assert((b + y)[b.len() as int] == y[0]);
        assert((a + x)[b.len() as int] == a[b.len() as int]);
        assert(is_digit(a[b.len() as int]));
    }
    cancel(a, x, b, y);
    digits_apart(n, m);
}

/// The items of an array from the `i`-th on, with the end of the array.
spec fn items_from(s: Seq<JsonModel>, i: nat) -> Seq<char>
    decreases s.len() - i,
{
    if i >= s.len() {
        seq![']']
    } else if i == 0 {
        encoded(s[0]) + items_from(s, 1)
    } else {
        seq![','] + (encoded(s[i as int]) + items_from(s, i + 1))
    }
}

proof fn items_split(s: Seq<JsonModel>, i: nat)
    requires
        i <= s.len(),
    ensures
        encoded_items(s, s.len()) + seq![']'] == encoded_items(s, i) + items_from(s, i),
    decreases s.len() - i,
{
    reveal_strlit(",");
    assert(","@ =~= seq![',']);
    if i < s.len() {
        items_split(s, i + 1);
        if i == 0 {
            assert(encoded_items(s, 0) =~= Seq::empty());
            assert(encoded_items(s, 1) + items_from(s, 1) =~= encoded_items(s, 0) + items_from(
                s,
                0,
            ));
        } else {
            assert(encoded_items(s, i + 1) + items_from(s, i + 1) =~= encoded_items(s, i)
                + items_from(s, i));
        }
    }
}

/// The members of an object from the `i`-th on, with the end of the object.
spec fn members_from(m: Members, i: nat) -> Seq<char>
    decreases m.len() - i,
{
    if i >= m.len() {
        seq!['}']
    } else {
        let text = quoted(m[i as int].0) + (seq![':'] + (encoded(m[i as int].1) + members_from(
            m,
            i + 1,
        )));
        if i == 0 {
            text
        } else {
            seq![','] + text
        }
    }
}

proof fn members_regrouped(
    e: Seq<char>,
    comma: Seq<char>,
    key: Seq<char>,
    colon: Seq<char>,
    value: Seq<char>,
    rest: Seq<char>,
)
    ensures
        (e + comma + (key + colon + value)) + rest == e + (comma + (key + (colon + (value + rest)))),
        (key + colon + value) + rest == key + (colon + (value + rest)),
{
    let member = key + colon + value;
    assert(member + rest =~= key + (colon + (value + rest)));
    assert((e + comma + member) + rest =~= e + (comma + (member + rest)));
}

proof fn members_split(m: Members, i: nat)
    requires
        i <= m.len(),
    ensures
        encoded_members(m, m.len()) + seq!['}'] == encoded_members(m, i) + members_from(m, i),
    decreases m.len() - i,
{
    if i < m.len() {
        members_split(m, i + 1);
        let key = quoted(m[i as int].0);
        let value = encoded(m[i as int].1);
        let e = encoded_members(m, i);
        let rest = members_from(m, i + 1);
        reveal_strlit(",");
        reveal_strlit(":");
        assert(","@ =~= seq![',']);
        assert(":"@ =~= seq![':']);
        members_regrouped(e, ","@, key, ":"@, value, rest);
        if i == 0 {
            assert(e + members_from(m, 0) =~= members_from(m, 0));
            assert(encoded_members(m, 1) == key + ":"@ + value);
        } else {
            assert(encoded_members(m, i + 1) == e + ","@ + (key + ":"@ + value));
        }
    }
}

/// The first character of a value tells its kind.
spec fn starts(a: JsonModel, c: char) -> bool {
    match a {
        JsonModel::Null => c == 'n',
        JsonModel::Bool(b) => c == if b {
            't'
        } else {
            'f'
        },
        JsonModel::Uint(_) => is_digit(c),
        JsonModel::Str(_) => c == '"',
        JsonModel::Arr(_) => c == '[',
        JsonModel::Obj(_) => c == '{',
        _ => false,
    }
}

proof fn value_starts(a: JsonModel, x: Seq<char>)
    requires
        is_plain(a),
    ensures
        encoded(a).len() > 0,
        starts(a, encoded(a)[0]),
        (encoded(a) + x).len() > 0,
        (encoded(a) + x)[0] == encoded(a)[0],
{
    reveal_strlit("null");
    reveal_strlit("true");
    reveal_strlit("false");
    reveal_strlit("[");
    reveal_strlit("{");
    match a {
        JsonModel::Uint(n) => {
            digits_are_digits(n as nat);
        },
        JsonModel::Str(s) => {
            reveal(quoted);
        },
        _ => {},
    }
}

proof fn values_apart(a: JsonModel, b: JsonModel, x: Seq<char>, y: Seq<char>)
    requires
        is_plain(a),
        is_plain(b),
        encoded(a) + x == encoded(b) + y,
        stops(x),
        stops(y),
    ensures
        a == b,
        x == y,
    decreases a, 0nat,
{
    value_starts(a, x);
    value_starts(b, y);
    match (a, b) {
        (JsonModel::Uint(n), JsonModel::Uint(m)) => {
            numbers_apart(n as nat, m as nat, x, y);
        },
        (JsonModel::Str(s), JsonModel::Str(t)) => {
            quoted_texts_apart(s, t, x, y);
        },
        (JsonModel::Arr(s), JsonModel::Arr(t)) => {
            reveal_strlit("[");
            reveal_strlit("]");
            assert("["@ =~= seq!['['] && "]"@ =~= seq![']']);
            items_split(s, 0);
            items_split(t, 0);
            let open = seq!['['];
            assert(encoded(a) + x =~= open + (items_from(s, 0) + x));
            assert(encoded(b) + y =~= open + (items_from(t, 0) + y));
            cancel(open, items_from(s, 0) + x, open, items_from(t, 0) + y);
            items_apart(s, t, 0, x, y);
            assert(s =~= t);
        },
        (JsonModel::Obj(m), JsonModel::Obj(n)) => {
            reveal_strlit("{");
            reveal_strlit("}");
            assert("{"@ =~= seq!['{'] && "}"@ =~= seq!['}']);
            members_split(m, 0);
            members_split(n, 0);
            let open = seq!['{'];
            assert(encoded(a) + x =~= open + (members_from(m, 0) + x));
            assert(encoded(b) + y =~= open + (members_from(n, 0) + y));
            cancel(open, members_from(m, 0) + x, open, members_from(n, 0) + y);
            members_apart(m, n, 0, x, y);
            assert(m =~= n);
        },
        _ => {
            assert(a == b);
            cancel(encoded(a), x, encoded(b), y);
        },
    }
}

proof fn items_apart(
    s: Seq<JsonModel>,
    t: Seq<JsonModel>,
    i: nat,
    x: Seq<char>,
    y: Seq<char>,
)
    requires
        i <= s.len(),
        i <= t.len(),
        forall|k: int| 0 <= k < s.len() ==> is_plain(#[trigger] s[k]),
        forall|k: int| 0 <= k < t.len() ==> is_plain(#[trigger] t[k]),
        items_from(s, i) + x == items_from(t, i) + y,
    ensures
        s.len() == t.len(),
        forall|k: int| i <= k < s.len() ==> s[k] == t[k],
        x == y,
    decreases s, (s.len() - i) as nat,
{
    let left = items_from(s, i) + x;
    let right = items_from(t, i) + y;
    let j = i as int;
    if i == s.len() {
        assert(left[0] == ']');
    } else {
        value_starts(s[j], items_from(s, i + 1));
        assert(left[0] == if i == 0 {
            encoded(s[j])[0]
        } else {
            ','
        });
    }
    if i == t.len() {
        assert(right[0] == ']');
    } else {
        value_starts(t[j], items_from(t, i + 1));
        assert(right[0] == if i == 0 {
            encoded(t[j])[0]
        } else {
            ','
        });
    }
    if i == s.len() {
        cancel(items_from(s, i), x, items_from(t, i), y);
    } else {
        let a = items_from(s, i + 1) + x;
        let b = items_from(t, i + 1) + y;
        if i == 0 {
            assert(left =~= encoded(s[j]) + a);
            assert(right =~= encoded(t[j]) + b);
        } else {
            let comma = seq![','];
            assert(left =~= comma + (encoded(s[j]) + a));
            assert(right =~= comma + (encoded(t[j]) + b));
            cancel(comma, encoded(s[j]) + a, comma, encoded(t[j]) + b);
        }
        assert(a[0] == items_from(s, i + 1)[0] && b[0] == items_from(t, i + 1)[0]);
        values_apart(s[j], t[j], a, b);
        items_apart(s, t, i + 1, x, y);
    }
}

proof fn members_apart(m: Members, n: Members, i: nat, x: Seq<char>, y: Seq<char>)
    requires
        i <= m.len(),
        i <= n.len(),
        forall|k: int| 0 <= k < m.len() ==> is_plain((#[trigger] m[k]).1),
        forall|k: int| 0 <= k < n.len() ==> is_plain((#[trigger] n[k]).1),
        members_from(m, i) + x == members_from(n, i) + y,
    ensures
        m.len() == n.len(),
        forall|k: int| i <= k < m.len() ==> m[k] == n[k],
        x == y,
    decreases m, (m.len() - i) as nat,
{
    let left = members_from(m, i) + x;
    let right = members_from(n, i) + y;
    let j = i as int;
    let colon = seq![':'];
    let comma = seq![','];
    let a = members_from(m, i + 1) + x;
    let b = members_from(n, i + 1) + y;
    let p = quoted(m[j].0) + (colon + (encoded(m[j].1) + a));
    let q = quoted(n[j].0) + (colon + (encoded(n[j].1) + b));
    assert(quoted(m[j].0)[0] == '"' && quoted(n[j].0)[0] == '"') by {
        reveal(quoted);
    }
    assert(quoted(m[j].0).len() > 0 && quoted(n[j].0).len() > 0) by {
        reveal(quoted);
    }
    if i < m.len() {
        if i == 0 {
            assert(left =~= p);
            assert(left[0] == '"');
        } else {
            assert(left =~= comma + p);
            assert(left[0] == ',');
        }
    } else {
        assert(left[0] == '}');
    }
    if i < n.len() {
        if i == 0 {
            assert(right =~= q);
            assert(right[0] == '"');
        } else {
            assert(right =~= comma + q);
            assert(right[0] == ',');
        }
    } else {
        assert(right[0] == '}');
    }
    if i == m.len() {
        cancel(members_from(m, i), x, members_from(n, i), y);
    } else {
        if i > 0 {
            cancel(comma, p, comma, q);
        }
        let c = encoded(m[j].1) + a;
        let d = encoded(n[j].1) + b;
        quoted_texts_apart(m[j].0, n[j].0, colon + c, colon + d);
        cancel(colon, c, colon, d);
        assert(a[0] == members_from(m, i + 1)[0] && b[0] == members_from(n, i + 1)[0]);
        values_apart(m[j].1, n[j].1, a, b);
        members_apart(m, n, i + 1, x, y);
    }
}

/// Two plain values with the same canonical bytes are the same.
pub proof fn canonical_bytes_tell_values_apart(a: JsonModel, b: JsonModel)
    requires
        is_plain(a),
        is_plain(b),
        canonical_bytes(a) == canonical_bytes(b),
    ensures
        a == b,
{
    vstd::utf8::encode_utf8_decode_utf8(encoded(a));
    vstd::utf8::encode_utf8_decode_utf8(encoded(b));
    let none = Seq::<char>::empty();
    assert(encoded(a) + none =~= encoded(a));
    assert(encoded(b) + none =~= encoded(b));
    values_apart(a, b, none, none);
}

proof fn put_keeps_plain(m: Members, key: Seq<char>, value: JsonModel)
    requires
        forall|k: int| 0 <= k < m.len() ==> is_plain((#[trigger] m[k]).1),
        is_plain(value),
    ensures
        forall|k: int| 0 <= k < put(m, key, value).len() ==> is_plain(
            (#[trigger] put(m, key, value)[k]).1,
        ),
    decreases m.len(),
{
    let after = put(m, key, value);
    if m.len() > 0 {
        let rest = m.drop_first();
        put_keeps_plain(rest, key, value);
        assert forall|k: int| 0 <= k < after.len() implies is_plain((#[trigger] after[k]).1) by {
            if m[0].0 == key {
                if k > 0 {
                    assert(after[k] == m[k]);
                }
            } else if text_less(key, m[0].0) {
                if k > 0 {
                    assert(after[k] == m[k - 1]);
                }
            } else if k > 0 {
                assert(after[k] == put(rest, key, value)[k - 1]);
            }
        }
    }
}

/// A plain object with a plain member is plain.
pub proof fn with_keeps_plain(object: JsonModel, key: Seq<char>, value: JsonModel)
    requires
        is_plain(object),
        is_plain(value),
    ensures
        is_plain(object.with(key, value)),
{
    if let JsonModel::Obj(m) = object {
        put_keeps_plain(m, key, value);
    }
}

} // verus!
