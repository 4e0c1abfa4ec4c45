//! What becomes of the types in the identity of a declaration: their names lose what stands
//! in front of the last part, and nothing else changes.

use vstd::prelude::*;
use vstd::string::*;

use crate::json::{members_of_with, JsonModel};
use crate::owner_identity::{
    identity_canonical, is_blank, is_dotted_name, is_name, is_name_start, is_qualified_name,
    is_qualified_part, last_part, last_part_start, name_end, sign_read, type_canonical, type_read,
    types_canonical, Reading,
};
use crate::record::Record;
use crate::text::{pieces, pieces_not_empty};

verus! {

/// Whether a text has no slash and no dot.
pub open spec fn is_undivided(s: Seq<char>) -> bool {
    forall|k: int| 0 <= k < s.len() ==> #[trigger] s[k] != '/' && s[k] != '.'
}

/// The characters of a text that stand in no name.
pub open spec fn signs(s: Seq<char>) -> Seq<char> {
    s.filter(|c: char| !is_qualified_part(c))
}

/// How often a character stands among the first `n` of a text.
pub open spec fn count_of(s: Seq<char>, c: char, n: nat) -> nat
    decreases n,
{
    if n == 0 || n > s.len() {
        0
    } else {
        count_of(s, c, (n - 1) as nat) + if s[n - 1] == c {
            1nat
        } else {
            0nat
        }
    }
}

/// Whether each angle bracket that is opened is closed behind it, and no other.
pub open spec fn is_balanced(s: Seq<char>) -> bool {
    &&& forall|n: nat| n <= s.len() ==> #[trigger] count_of(s, '>', n) <= count_of(s, '<', n)
    &&& count_of(s, '<', s.len()) == count_of(s, '>', s.len())
}

proof fn names_end(s: Seq<char>, i: int)
    requires
        0 <= i <= s.len(),
    ensures
        i <= name_end(s, i) <= s.len(),
        forall|k: int| i <= k < name_end(s, i) ==> is_qualified_part(#[trigger] s[k]),
        name_end(s, i) < s.len() ==> !is_qualified_part(s[name_end(s, i)]),
    decreases s.len() - i,
{
    if i < s.len() && is_qualified_part(s[i]) {
        names_end(s, i + 1);
    }
}

proof fn last_parts_start(s: Seq<char>)
    ensures
        0 <= last_part_start(s) <= s.len(),
        last_part_start(s) > 0 ==> s[last_part_start(s) - 1] == '/' || s[last_part_start(s) - 1]
            == '.',
        is_undivided(last_part(s)),
    decreases s.len(),
{
    if s.len() > 0 && s.last() != '/' && s.last() != '.' {
        let rest = s.drop_last();
        last_parts_start(rest);
        let at = last_part_start(s);
        assert forall|k: int| 0 <= k < last_part(s).len() implies #[trigger] last_part(s)[k] != '/'
            && last_part(s)[k] != '.' by {
            if at + k < rest.len() {
                assert(last_part(rest)[k] == last_part(s)[k]);
            } else {
                assert(last_part(s)[k] == s.last());
            }
        }
    }
}

proof fn no_signs(s: Seq<char>)
    requires
        forall|k: int| 0 <= k < s.len() ==> is_qualified_part(#[trigger] s[k]),
    ensures
        signs(s) == Seq::<char>::empty(),
    decreases s.len(),
{
    reveal(Seq::filter);
    if s.len() > 0 {
        let rest = s.drop_last();
        assert forall|k: int| 0 <= k < rest.len() implies is_qualified_part(#[trigger] rest[k]) by {
            assert(rest[k] == s[k]);
        }
        no_signs(rest);
    }
}

proof fn signs_of_both(a: Seq<char>, b: Seq<char>)
    ensures
        signs(a + b) == signs(a) + signs(b),
{
    Seq::filter_distributes_over_add(a, b, |c: char| !is_qualified_part(c));
}

proof fn one_sign(c: char)
    requires
        !is_qualified_part(c),
    ensures
        signs(seq![c]) == seq![c],
{
    reveal(Seq::filter);
    assert(seq![c].drop_last() =~= Seq::empty());
    assert(signs(seq![c].drop_last()) =~= Seq::empty());
}

proof fn same_count(s: Seq<char>, c: char, i: nat, n: nat)
    requires
        i <= n <= s.len(),
        forall|k: int| i <= k < n ==> #[trigger] s[k] != c,
    ensures
        count_of(s, c, n) == count_of(s, c, i),
    decreases n,
{
    if i < n {
        same_count(s, c, i, (n - 1) as nat);
    }
}

/// Whether from a place on no more angle brackets are closed than were opened, and as many
/// at the end.
spec fn balances_from(s: Seq<char>, i: int) -> bool {
    &&& forall|n: nat|
        i <= n <= s.len() ==> #[trigger] count_of(s, '>', n) <= count_of(s, '<', n)
    &&& count_of(s, '<', s.len()) == count_of(s, '>', s.len())
}

proof fn signs_are_kept(s: Seq<char>, i: int, r: Reading, done: Seq<char>)
    requires
        0 <= i <= s.len(),
        is_undivided(done),
    ensures
        match type_read(s, i, r, done) {
            Some(short) => {
                &&& is_undivided(short)
                &&& signs(short) == signs(done) + signs(s.skip(i))
            },
            None => true,
        },
    decreases s.len() - i,
{
    if i == s.len() {
        reveal(Seq::filter);
        assert(s.skip(i) =~= Seq::empty());
        assert(signs(done) + signs(s.skip(i)) =~= signs(done));
    } else if is_name_start(s[i]) && !is_blank(s[i]) {
        names_end(s, i + 1);
        let end = name_end(s, i + 1);
        let name = s.subrange(i, end);
        let short = if name == "in"@ || name == "out"@ {
            name
        } else {
            last_part(name)
        };
        assert forall|k: int| 0 <= k < name.len() implies is_qualified_part(#[trigger] name[k]) by {
            assert(name[k] == s[i + k]);
        }
        last_parts_start(name);
        reveal_strlit("in");
        reveal_strlit("out");
        assert(is_undivided(short));
        assert forall|k: int| 0 <= k < short.len() implies is_qualified_part(
            #[trigger] short[k],
        ) by {
            if short != name {
                assert(short[k] == name[k + last_part_start(name)]);
            }
        }
        no_signs(name);
        no_signs(short);
        assert(s.skip(i) =~= name + s.skip(end));
        signs_of_both(name, s.skip(end));
        signs_of_both(done, short);
        assert(signs(done + short) =~= signs(done));
        assert(signs(s.skip(i)) =~= signs(s.skip(end)));
        assert(is_undivided(done + short));
        signs_are_kept(s, end, r, done + short);
        signs_are_kept(s, end, Reading { expects: false, seen: true, ..r }, done + short);
    } else {
        let c = s[i];
        assert(s.skip(i) =~= seq![c] + s.skip(i + 1));
        assert(done.push(c) =~= done + seq![c]);
        signs_of_both(seq![c], s.skip(i + 1));
        signs_of_both(done, seq![c]);
        if is_blank(c) {
            one_sign(c);
            assert(is_undivided(done.push(c)));
            signs_are_kept(s, i + 1, r, done.push(c));
            assert((signs(done) + seq![c]) + signs(s.skip(i + 1)) =~= signs(done) + (seq![c]
                + signs(s.skip(i + 1))));
        } else if let Some(next) = sign_read(r, c) {
            one_sign(c);
            assert(is_undivided(done.push(c)));
            signs_are_kept(s, i + 1, next, done.push(c));
            assert((signs(done) + seq![c]) + signs(s.skip(i + 1)) =~= signs(done) + (seq![c]
                + signs(s.skip(i + 1))));
        }
    }
}

proof fn brackets_match(s: Seq<char>, i: int, r: Reading, done: Seq<char>)
    requires
        0 <= i <= s.len(),
        r.depth == count_of(s, '<', i as nat) - count_of(s, '>', i as nat),
    ensures
        type_read(s, i, r, done) is Some ==> balances_from(s, i),
    decreases s.len() - i,
{
    if i == s.len() {
    } else if is_name_start(s[i]) && !is_blank(s[i]) {
        names_end(s, i + 1);
        let end = name_end(s, i + 1);
        let name = s.subrange(i, end);
        assert forall|k: int| i <= k < end implies #[trigger] s[k] != '<' && s[k] != '>' by {
            assert(is_qualified_part(s[k]));
        }
        same_count(s, '<', i as nat, end as nat);
        same_count(s, '>', i as nat, end as nat);
        let short = last_part(name);
        brackets_match(s, end, r, done + name);
        brackets_match(s, end, Reading { expects: false, seen: true, ..r }, done + short);
        assert forall|n: nat| i <= n <= s.len() && balances_from(s, end) implies #[trigger] count_of(
            s,
            '>',
            n,
        ) <= count_of(s, '<', n) by {
            if n <= end {
                same_count(s, '<', i as nat, n);
                same_count(s, '>', i as nat, n);
            }
        }
    } else {
        let c = s[i];
        assert(count_of(s, '<', (i + 1) as nat) == count_of(s, '<', i as nat) + if c == '<' {
            1nat
        } else {
            0nat
        });
        assert(count_of(s, '>', (i + 1) as nat) == count_of(s, '>', i as nat) + if c == '>' {
            1nat
        } else {
            0nat
        });
        if is_blank(c) {
            brackets_match(s, i + 1, r, done.push(c));
        } else if let Some(next) = sign_read(r, c) {
            brackets_match(s, i + 1, next, done.push(c));
        }
        assert forall|n: nat| i <= n <= s.len() && balances_from(s, i + 1) implies #[trigger] count_of(
            s,
            '>',
            n,
        ) <= count_of(s, '<', n) by {
            if n == i {
            }
        }
    }
}

/// Whether a text is a type with shorter names: none of them is divided, and what stands
/// outside of names is the same.
pub open spec fn is_shortened(short: Seq<char>, s: Seq<char>) -> bool {
    &&& is_undivided(short)
    &&& signs(short) == signs(s)
    &&& is_balanced(s)
}

/// A type is shortened only within its names: what stands outside of them stays, in its
/// order, and no name is divided by a slash or a dot any more. Where brackets do not match,
/// there is no type.
pub proof fn types_are_shortened_in_names(s: Seq<char>)
    ensures
        match type_canonical(s) {
            Some(short) => is_shortened(short, s),
            None => true,
        },
{
    let start = Reading { depth: 0, expects: true, seen: false };
    signs_are_kept(s, 0, start, Seq::empty());
    brackets_match(s, 0, start, Seq::empty());
    assert(s.skip(0) =~= s);
    reveal(Seq::filter);
    assert(signs(Seq::<char>::empty()) + signs(s) =~= signs(s));
}

proof fn pieces_have_all(s: Seq<char>, separator: char, k: int)
    requires
        0 <= k < s.len(),
        s[k] != separator,
    ensures
        exists|i: int, j: int|
            0 <= i < pieces(s, separator).len() && 0 <= j < pieces(s, separator)[i].len()
                && #[trigger] pieces(s, separator)[i][j] == s[k],
    decreases s.len(),
{
    let rest = s.drop_last();
    let before = pieces(rest, separator);
    let after = pieces(s, separator);
    pieces_not_empty(rest, separator);
    if k < rest.len() {
        pieces_have_all(rest, separator, k);
        let (i, j) = choose|i: int, j: int|
            0 <= i < before.len() && 0 <= j < before[i].len() && #[trigger] before[i][j]
                == rest[k];
        assert(after[i][j] == before[i][j]);
    } else {
        let last = before.len() - 1;
        assert(after[last][before[last].len() as int] == s[k]);
    }
}

proof fn pieces_start(s: Seq<char>, separator: char)
    ensures
        pieces(s, separator).len() > 0,
        pieces(s, separator).len() == 1 ==> pieces(s, separator)[0] == s,
        pieces(s, separator)[0].len() > 0 ==> s.len() > 0 && s[0] == pieces(s, separator)[0][0],
    decreases s.len(),
{
    if s.len() > 0 {
        let rest = s.drop_last();
        pieces_start(rest, separator);
        assert(rest.push(s.last()) =~= s);
    } else {
        assert(s =~= Seq::empty());
    }
}

proof fn qualified_names(name: Seq<char>)
    requires
        is_qualified_name(name),
    ensures
        name.len() > 0,
        is_name_start(name[0]),
        forall|k: int| 0 <= k < name.len() ==> is_qualified_part(#[trigger] name[k]),
{
    let parts = pieces(name, '/');
    pieces_start(name, '/');
    let first = parts[0];
    assert(first.len() > 0 && is_dotted_name(first));
    pieces_start(first, '.');
    assert(is_name(pieces(first, '.')[0]));
    assert forall|k: int| 0 <= k < name.len() implies is_qualified_part(#[trigger] name[k]) by {
        if name[k] != '/' {
            pieces_have_all(name, '/', k);
            let (i, j) = choose|i: int, j: int|
                0 <= i < parts.len() && 0 <= j < parts[i].len() && #[trigger] parts[i][j]
                    == name[k];
            let part = parts[i];
            assert(is_dotted_name(part));
            if part[j] != '.' {
                pieces_have_all(part, '.', j);
                let words = pieces(part, '.');
                let (p, q) = choose|p: int, q: int|
                    0 <= p < words.len() && 0 <= q < words[p].len() && #[trigger] words[p][q]
                        == part[j];
                assert(is_name(words[p]));
            }
        }
    }
}

/// A qualified name is shortened to what stands behind its last slash or dot, unless it is one
/// of the two words that say how a type may vary.
pub proof fn names_go_by_their_last_part(name: Seq<char>)
    requires
        is_qualified_name(name),
        name != "in"@,
        name != "out"@,
    ensures
        match type_canonical(name) {
            Some(short) => {
                &&& is_undivided(short)
                &&& short.len() <= name.len()
                &&& short == name.skip(name.len() - short.len())
                &&& short.len() < name.len() ==> {
                    let c = name[name.len() - short.len() - 1];
                    c == '/' || c == '.'
                }
            },
            None => false,
        },
{
    qualified_names(name);
    names_end(name, 1);
    let end = name_end(name, 1);
    assert(end == name.len());
    assert(name.subrange(0, end) =~= name);
    last_parts_start(name);
    assert(!is_blank(name[0]));
    assert(Seq::<char>::empty() + last_part(name) =~= last_part(name));
    let next = Reading { depth: 0, expects: false, seen: true };
    assert(type_read(name, end, next, last_part(name)) == Some(last_part(name)));
    assert(type_canonical(name) == Some(last_part(name)));
}

proof fn types_of_list(items: Seq<JsonModel>, before: Seq<Seq<char>>, i: int)
    requires
        0 <= i <= items.len(),
    ensures
        match types_canonical(items, before, i) {
            Some(all) => {
                &&& all.len() == before.len() + items.len() - i
                &&& forall|k: int| 0 <= k < before.len() ==> #[trigger] all[k] == before[k]
                &&& forall|k: int|
                    i <= k < items.len() ==> match #[trigger] items[k] {
                        JsonModel::Str(s) => type_canonical(s) == Some(all[before.len() + k - i]),
                        _ => false,
                    }
            },
            None => exists|k: int|
                i <= k < items.len() && match #[trigger] items[k] {
                    JsonModel::Str(s) => type_canonical(s) is None,
                    _ => true,
                },
        },
    decreases items.len() - i,
{
    if i < items.len() {
        if let Some(text) = items[i].as_str() {
            if let Some(short) = type_canonical(text) {
                types_of_list(items, before.push(short), i + 1);
                if let Some(all) = types_canonical(items, before.push(short), i + 1) {
                    assert forall|k: int| 0 <= k < before.len() implies #[trigger] all[k]
                        == before[k] by {
                        assert(all[k] == before.push(short)[k]);
                    }
                    assert(all[before.len() as int] == before.push(short)[before.len() as int]);
                } else {
                    let k = choose|k: int|
                        i + 1 <= k < items.len() && match #[trigger] items[k] {
                            JsonModel::Str(s) => type_canonical(s) is None,
                            _ => true,
                        };
                    assert(items[k] == items[k]);
                }
            } else {
                assert(items[i] == JsonModel::Str(text));
            }
        } else {
            assert(items[i] !is Str);
        }
    }
}

/// Whether the types under a key are those that stood there, each of them shortened.
pub open spec fn types_are_shortened(
    short: JsonModel,
    identity: JsonModel,
    key: Seq<char>,
) -> bool {
    match (short.get(key), identity.get(key)) {
        (Some(JsonModel::Arr(after)), Some(JsonModel::Arr(before))) => {
            &&& after.len() == before.len()
            &&& forall|k: int|
                0 <= k < before.len() ==> match (#[trigger] after[k], before[k]) {
                    (JsonModel::Str(t), JsonModel::Str(s)) => is_shortened(t, s)
                        && type_canonical(s) == Some(t),
                    _ => false,
                }
        },
        _ => false,
    }
}

proof fn shortened_list(items: Seq<JsonModel>, all: Seq<Seq<char>>)
    requires
        types_canonical(items, Seq::empty(), 0) == Some(all),
    ensures
        ({
            let list = <Vec<String> as Record>::json(all);
            &&& list is Arr
            &&& list->Arr_0.len() == items.len()
            &&& forall|k: int|
                0 <= k < items.len() ==> match (#[trigger] list->Arr_0[k], items[k]) {
                    (JsonModel::Str(t), JsonModel::Str(s)) => is_shortened(t, s)
                        && type_canonical(s) == Some(t),
                    _ => false,
                }
        }),
{
    types_of_list(items, Seq::empty(), 0);
    let list = <Vec<String> as Record>::json(all);
    assert forall|k: int| 0 <= k < items.len() implies match (#[trigger] list->Arr_0[k], items[k]) {
        (JsonModel::Str(t), JsonModel::Str(s)) => is_shortened(t, s) && type_canonical(s) == Some(
            t,
        ),
        _ => false,
    } by {
        if let JsonModel::Str(s) = items[k] {
            types_are_shortened_in_names(s);
            assert(type_canonical(s) == Some(all[k]));
        }
    }
}

/// The identity of a declaration changes in the types of its parameters and receivers alone,
/// and these are shortened one by one.
pub proof fn identities_change_in_types_alone(identity: JsonModel)
    ensures
        match identity_canonical(identity) {
            Some(short) => {
                &&& types_are_shortened(short, identity, "parameterTypes"@)
                &&& types_are_shortened(short, identity, "receiverTypes"@)
                &&& forall|key: Seq<char>|
                    key != "parameterTypes"@ && key != "receiverTypes"@ ==> #[trigger] short.get(
                        key,
                    ) == identity.get(key)
            },
            None => true,
        },
{
    if let Some(short) = identity_canonical(identity) {
        reveal_strlit("parameterTypes");
        reveal_strlit("receiverTypes");
        assert("parameterTypes"@.len() == 14);
        assert("receiverTypes"@.len() == 13);
        let parameters = identity.array_at("parameterTypes"@)->0;
        let receivers = identity.array_at("receiverTypes"@)->0;
        let p = types_canonical(parameters, Seq::empty(), 0)->0;
        let r = types_canonical(receivers, Seq::empty(), 0)->0;
        shortened_list(parameters, p);
        shortened_list(receivers, r);
        let half = identity.with("parameterTypes"@, <Vec<String> as Record>::json(p));
        members_of_with(identity, "parameterTypes"@, <Vec<String> as Record>::json(p));
        members_of_with(half, "receiverTypes"@, <Vec<String> as Record>::json(r));
    }
}

} // verus!
