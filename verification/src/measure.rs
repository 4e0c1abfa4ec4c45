//! How long the canonical bytes of an object are: as long as its members together, with what
//! stands around them.

use vstd::prelude::*;
use vstd::string::*;
use vstd::utf8::*;

use crate::json::{
    canonical_bytes, encoded, encoded_members, escaped, escaped_char, member, member_of_with, put,
    quoted, JsonModel, Members,
};
use crate::text::text_less;

verus! {

proof fn lengths_add(a: Seq<char>, b: Seq<char>)
    ensures
        encode_utf8(a + b).len() == encode_utf8(a).len() + encode_utf8(b).len(),
    decreases a.len(),
{
    if a.len() == 0 {
        assert(a + b =~= b);
    } else {
        let rest = a.drop_first();
        lengths_add(rest, b);
        assert((a + b).drop_first() =~= rest + b);
        assert((a + b)[0] == a[0]);
    }
}

proof fn length_is_bounded(s: Seq<char>)
    ensures
        encode_utf8(s).len() <= 4 * s.len(),
    decreases s.len(),
{
    if s.len() > 0 {
        length_is_bounded(s.drop_first());
        assert(encode_scalar(s[0] as u32).len() <= 4);
    }
}

proof fn escaped_is_bounded(s: Seq<char>, n: nat)
    ensures
        escaped(s, n).len() <= 6 * n,
    decreases n,
{
    if 0 < n && n <= s.len() {
        escaped_is_bounded(s, (n - 1) as nat);
        assert(escaped_char(s[n - 1]).len() <= 6);
    }
}

/// The bytes of a string literal are at most some for each character, and the quotes.
pub proof fn literal_is_bounded(s: Seq<char>)
    ensures
        encode_utf8(quoted(s)).len() <= 24 * s.len() + 8,
        canonical_bytes(JsonModel::Str(s)) == encode_utf8(quoted(s)),
{
    reveal(quoted);
    escaped_is_bounded(s, s.len());
    length_is_bounded(quoted(s));
}

/// How many bytes a member has, with the colon in it and a comma beside it.
pub open spec fn member_length(key: Seq<char>, value: JsonModel) -> nat {
    encode_utf8(quoted(key)).len() + canonical_bytes(value).len() + 2
}

/// How many bytes the first `n` members have.
pub open spec fn members_length(m: Members, n: nat) -> nat
    decreases n,
{
    if n == 0 || n > m.len() {
        0
    } else {
        members_length(m, (n - 1) as nat) + member_length(m[n - 1].0, m[n - 1].1)
    }
}

/// How many bytes the members of an object have.
pub open spec fn length_of(object: JsonModel) -> nat {
    match object {
        JsonModel::Obj(m) => members_length(m, m.len()),
        _ => 0,
    }
}

proof fn members_have_their_length(m: Members, n: nat)
    requires
        1 <= n <= m.len(),
    ensures
        encode_utf8(encoded_members(m, n)).len() + 1 == members_length(m, n),
    decreases n,
{
    let key = quoted(m[n - 1].0);
    let value = encoded(m[n - 1].1);
    reveal_strlit(":");
    reveal_strlit(",");
    assert(":"@ =~= seq![':'] && ","@ =~= seq![',']);
    sign_has_one_byte(':');
    sign_has_one_byte(',');
    lengths_add(key, ":"@);
    lengths_add(key + ":"@, value);
    let last = key + ":"@ + value;
    if n == 1 {
        assert(members_length(m, 0) == 0);
        assert(encoded_members(m, 1) == last);
    } else {
        members_have_their_length(m, (n - 1) as nat);
        let before = encoded_members(m, (n - 1) as nat);
        lengths_add(before, ","@);
        lengths_add(before + ","@, last);
        assert(encoded_members(m, n) == before + ","@ + last);
    }
}

proof fn sign_has_one_byte(c: char)
    requires
        (c as u32) < 128,
    ensures
        encode_utf8(seq![c]).len() == 1,
{
    let s = seq![c];
    assert(s.drop_first().len() == 0);
    assert(encode_utf8(s.drop_first()).len() == 0);
    assert(encode_utf8(s) == encode_scalar(s[0] as u32) + encode_utf8(s.drop_first()));
    assert(has_width_1_encoding(c as u32));
}

/// The bytes of an object with members are those of its members, without the last comma and
/// with the brackets.
pub proof fn object_has_its_length(object: JsonModel)
    requires
        object is Obj,
        length_of(object) > 0,
    ensures
        canonical_bytes(object).len() == length_of(object) + 1,
{
    let m = object->Obj_0;
    members_have_their_length(m, m.len());
    reveal_strlit("{");
    reveal_strlit("}");
    assert("{"@ =~= seq!['{'] && "}"@ =~= seq!['}']);
    sign_has_one_byte('{');
    sign_has_one_byte('}');
    let members = encoded_members(m, m.len());
    lengths_add("{"@, members);
    lengths_add("{"@ + members, "}"@);
}

proof fn length_from_the_front(m: Members, n: nat)
    requires
        1 <= n <= m.len(),
    ensures
        members_length(m, n) == member_length(m[0].0, m[0].1) + members_length(
            m.drop_first(),
            (n - 1) as nat,
        ),
    decreases n,
{
    let rest = m.drop_first();
    if n > 1 {
        length_from_the_front(m, (n - 1) as nat);
        assert(rest[n - 2] == m[n - 1]);
    } else {
        assert(members_length(m, 0) == 0);
        assert(members_length(rest, 0) == 0);
    }
}

proof fn put_adds_length(m: Members, key: Seq<char>, value: JsonModel)
    ensures
        ({
            let before = members_length(m, m.len());
            let after = members_length(put(m, key, value), put(m, key, value).len());
            &&& after <= before + member_length(key, value)
            &&& member(m, key) is None ==> after == before + member_length(key, value)
        }),
    decreases m.len(),
{
    let after = put(m, key, value);
    if after.len() > 0 {
        length_from_the_front(after, after.len());
    }
    if m.len() == 0 {
        assert(after.drop_first().len() == 0);
    } else {
        length_from_the_front(m, m.len());
        let rest = m.drop_first();
        if m[0].0 == key {
            assert(after.drop_first() =~= rest);
        } else if text_less(key, m[0].0) {
            assert(after.drop_first() =~= m);
        } else {
            put_adds_length(rest, key, value);
            assert(after.drop_first() =~= put(rest, key, value));
        }
    }
}

/// Setting a member adds at most its bytes to an object, and just them where the member is
/// new.
pub proof fn with_adds_length(object: JsonModel, key: Seq<char>, value: JsonModel)
    requires
        object is Obj,
    ensures
        object.with(key, value) is Obj,
        length_of(object.with(key, value)) <= length_of(object) + member_length(key, value),
        object.get(key) is None ==> length_of(object.with(key, value)) == length_of(object)
            + member_length(key, value),
        forall|other: Seq<char>| #[trigger]
            object.with(key, value).get(other) == if other == key {
                Some(value)
            } else {
                object.get(other)
            },
{
    put_adds_length(object->Obj_0, key, value);
    assert forall|other: Seq<char>| #[trigger]
        object.with(key, value).get(other) == if other == key {
            Some(value)
        } else {
            object.get(other)
        } by {
        member_of_with(object, key, value, other);
    }
}

} // verus!
