//! Names of declarations as a query has them: the types in them by their last names.

use vstd::prelude::*;
use vstd::string::*;

use crate::json::{encoded, Json, JsonModel};
use crate::record::Record;
use crate::text::{chars_of, pieces, same_text, split, text_of};

verus! {

/// The value that a text holds, as `serde_json` reads it, where it holds one.
pub uninterp spec fn parsed_json(text: Seq<char>) -> Option<JsonModel>;

/// A value of `serde_json`.
#[verifier::external_type_specification]
#[verifier::external_body]
pub struct ExValue(serde_json::Value);

/// Makes a [`Json`] of a `serde_json::Value`, member for member. Claims nothing.
#[verifier::external_body]
fn from_value(value: serde_json::Value) -> Json {
    match value {
        serde_json::Value::Null => Json::Null,
        serde_json::Value::Bool(b) => Json::Bool(b),
        serde_json::Value::Number(n) => match (n.as_u64(), n.as_i64()) {
            (Some(n), _) => Json::Uint(n),
            (None, Some(n)) => Json::Int(n),
            (None, None) => Json::Decimal(n.to_string()),
        },
        serde_json::Value::String(s) => Json::Str(s),
        serde_json::Value::Array(v) => Json::Arr(v.into_iter().map(from_value).collect()),
        serde_json::Value::Object(m) => Json::Obj(
            m.into_iter().map(|(k, v)| (k, from_value(v))).collect(),
        ),
    }
}

/// The value that some bytes hold, as `serde_json` reads them, where they hold one.
pub uninterp spec fn parsed_bytes(bytes: Seq<u8>) -> Option<JsonModel>;

/// Reads a JSON value. Claims that what `serde_json::from_slice` reads depends on the bytes
/// alone.
#[verifier::external_body]
pub(crate) fn parse_bytes(bytes: &[u8]) -> (r: Option<Json>)
    ensures
        r.deep_view() == parsed_bytes(bytes@),
{
    serde_json::from_slice::<serde_json::Value>(bytes).ok().map(from_value)
}

/// Reads a JSON value. Claims that what `serde_json::from_str` reads depends on the text
/// alone.
#[verifier::external_body]
fn parse_json(text: &str) -> (r: Option<Json>)
    ensures
        r.deep_view() == parsed_json(text@),
{
    serde_json::from_str::<serde_json::Value>(text).ok().map(from_value)
}

/// Whether a character starts a name.
pub open spec fn is_name_start(c: char) -> bool {
    ('a' <= c <= 'z') || ('A' <= c <= 'Z') || c == '_' || c == '$'
}

/// Whether a character goes on in a name.
pub open spec fn is_name_part(c: char) -> bool {
    is_name_start(c) || ('0' <= c <= '9')
}

/// Whether a character goes on in a qualified name.
pub open spec fn is_qualified_part(c: char) -> bool {
    is_name_part(c) || c == '/' || c == '.'
}

/// Whether a character is white space of ASCII.
pub open spec fn is_blank(c: char) -> bool {
    c == ' ' || c == '\t' || c == '\n' || c as u32 == 0xC || c == '\r'
}

fn name_start(c: char) -> (r: bool)
    ensures
        r == is_name_start(c),
{
    ('a' <= c && c <= 'z') || ('A' <= c && c <= 'Z') || c == '_' || c == '$'
}

fn name_part(c: char) -> (r: bool)
    ensures
        r == is_name_part(c),
{
    name_start(c) || ('0' <= c && c <= '9')
}

fn qualified_part(c: char) -> (r: bool)
    ensures
        r == is_qualified_part(c),
{
    name_part(c) || c == '/' || c == '.'
}

fn blank(c: char) -> (r: bool)
    ensures
        r == is_blank(c),
{
    c == ' ' || c == '\t' || c == '\n' || c as u32 == 0xC || c == '\r'
}

/// Whether a text is a name.
pub open spec fn is_name(s: Seq<char>) -> bool {
    s.len() > 0 && is_name_start(s[0]) && forall|i: int|
        1 <= i < s.len() ==> is_name_part(#[trigger] s[i])
}

/// Whether each part between dots is a name.
pub open spec fn is_dotted_name(s: Seq<char>) -> bool {
    forall|i: int| 0 <= i < pieces(s, '.').len() ==> is_name(#[trigger] pieces(s, '.')[i])
}

/// Whether each part between slashes is a name with dots.
pub open spec fn is_qualified_name(s: Seq<char>) -> bool {
    forall|i: int|
        0 <= i < pieces(s, '/').len() ==> (#[trigger] pieces(s, '/')[i]).len() > 0
            && is_dotted_name(pieces(s, '/')[i])
}

fn valid_name(s: &str) -> (r: bool)
    ensures
        r == is_name(s@),
{
    let v = chars_of(s);
    if v.len() == 0 || !name_start(v[0]) {
        return false;
    }
    let mut i: usize = 1;
    while i < v.len()
        invariant
            1 <= i <= v.len(),
            v@ == s@,
            is_name_start(v@[0]),
            forall|k: int| 1 <= k < i ==> is_name_part(#[trigger] v@[k]),
        decreases v.len() - i,
    {
        if !name_part(v[i]) {
            return false;
        }
        i = i + 1;
    }
    true
}

fn valid_dotted_name(s: &str) -> (r: bool)
    ensures
        r == is_dotted_name(s@),
{
    let parts = split(s, '.');
    let ghost m = pieces(s@, '.');
    let mut i: usize = 0;
    while i < parts.len()
        invariant
            i <= parts.len(),
            m == parts.deep_view(),
            m == pieces(s@, '.'),
            forall|k: int| 0 <= k < i ==> is_name(#[trigger] m[k]),
        decreases parts.len() - i,
    {
        assert(m[i as int] == parts@[i as int]@);
        if !valid_name(parts[i].as_str()) {
            return false;
        }
        i = i + 1;
    }
    true
}

/// Whether each part between slashes of a text is a name with dots.
pub fn valid_qualified_identity_atom(s: &str) -> (r: bool)
    ensures
        r == is_qualified_name(s@),
{
    let parts = split(s, '/');
    let ghost m = pieces(s@, '/');
    let mut i: usize = 0;
    while i < parts.len()
        invariant
            i <= parts.len(),
            m == parts.deep_view(),
            m == pieces(s@, '/'),
            forall|k: int| 0 <= k < i ==> (#[trigger] m[k]).len() > 0 && is_dotted_name(m[k]),
        decreases parts.len() - i,
    {
        assert(m[i as int] == parts@[i as int]@);
        if parts[i].as_str().unicode_len() == 0 || !valid_dotted_name(parts[i].as_str()) {
            assert(!(m[i as int].len() > 0 && is_dotted_name(m[i as int])));
            return false;
        }
        i = i + 1;
    }
    true
}

/// The end of a qualified name from a place on.
pub open spec fn name_end(s: Seq<char>, i: int) -> int
    decreases s.len() - i,
{
    if 0 <= i < s.len() && is_qualified_part(s[i]) {
        name_end(s, i + 1)
    } else {
        i
    }
}

/// The place behind the last slash or dot of a text.
pub open spec fn last_part_start(s: Seq<char>) -> int
    decreases s.len(),
{
    if s.len() == 0 {
        0
    } else if s.last() == '/' || s.last() == '.' {
        s.len() as int
    } else {
        last_part_start(s.drop_last())
    }
}

/// The part of a text behind its last slash or dot.
pub open spec fn last_part(s: Seq<char>) -> Seq<char> {
    s.skip(last_part_start(s))
}

/// How far a type has been read: within how many angle brackets, whether a type has
/// to follow, and whether one was seen.
pub struct Reading {
    pub depth: nat,
    pub expects: bool,
    pub seen: bool,
}

/// What follows a sign of a type other than a name, where it may stand.
pub open spec fn sign_read(r: Reading, c: char) -> Option<Reading> {
    if c == '<' && !r.expects {
        Some(Reading { depth: r.depth + 1, expects: true, ..r })
    } else if c == ',' && r.depth > 0 && !r.expects {
        Some(Reading { expects: true, ..r })
    } else if c == '>' && r.depth > 0 && !r.expects {
        Some(Reading { depth: (r.depth - 1) as nat, ..r })
    } else if c == '*' && r.expects {
        Some(Reading { expects: false, seen: true, ..r })
    } else if (c == '?' || c == '!') && !r.expects {
        Some(r)
    } else if c == '&' && !r.expects {
        Some(Reading { expects: true, ..r })
    } else {
        None
    }
}

/// A type from a place on, behind what was read, with each name in it by its last
/// part.
pub open spec fn type_read(s: Seq<char>, i: int, r: Reading, done: Seq<char>) -> Option<Seq<char>>
    decreases s.len() - i,
{
    if i < 0 || i >= s.len() {
        if r.seen && !r.expects && r.depth == 0 {
            Some(done)
        } else {
            None
        }
    } else if is_blank(s[i]) {
        type_read(s, i + 1, r, done.push(s[i]))
    } else if is_name_start(s[i]) {
        let end = name_end(s, i + 1);
        if end <= i || end > s.len() {
            None
        } else {
            let name = s.subrange(i, end);
            if !r.expects || !is_qualified_name(name) {
                None
            } else if name == "in"@ || name == "out"@ {
                if end < s.len() && is_blank(s[end]) {
                    type_read(s, end, r, done + name)
                } else {
                    None
                }
            } else {
                type_read(
                    s,
                    end,
                    Reading { expects: false, seen: true, ..r },
                    done + last_part(name),
                )
            }
        }
    } else {
        match sign_read(r, s[i]) {
            None => None,
            Some(next) => type_read(s, i + 1, next, done.push(s[i])),
        }
    }
}

/// A type with each name in it by its last part, where it is one.
pub open spec fn type_canonical(s: Seq<char>) -> Option<Seq<char>> {
    type_read(s, 0, (Reading { depth: 0, expects: true, seen: false }), Seq::empty())
}

fn end_of_name(v: &Vec<char>, start: usize) -> (r: usize)
    requires
        start <= v@.len(),
    ensures
        r == name_end(v@, start as int),
        start <= r <= v@.len(),
{
    let mut i: usize = start;
    while i < v.len() && qualified_part(v[i])
        invariant
            start <= i <= v.len(),
            name_end(v@, start as int) == name_end(v@, i as int),
        decreases v.len() - i,
    {
        i = i + 1;
    }
    i
}

fn start_of_last_part(v: &Vec<char>, start: usize, end: usize) -> (r: usize)
    requires
        start <= end <= v@.len(),
    ensures
        start <= r <= end,
        r == start + last_part_start(v@.subrange(start as int, end as int)),
{
    let mut i: usize = end;
    while i > start && v[i - 1] != '/' && v[i - 1] != '.'
        invariant
            start <= i <= end <= v@.len(),
            last_part_start(v@.subrange(start as int, end as int)) == last_part_start(
                v@.subrange(start as int, i as int),
            ),
        decreases i,
    {
        assert(v@.subrange(start as int, i as int).last() == v@[i - 1]);
        assert(v@.subrange(start as int, i as int).drop_last() =~= v@.subrange(
            start as int,
            i - 1,
        ));
        i = i - 1;
    }
    assert(i > start ==> v@.subrange(start as int, i as int).last() == v@[i - 1]);
    i
}

fn append(done: &mut Vec<char>, v: &Vec<char>, start: usize, end: usize)
    requires
        start <= end <= v@.len(),
    ensures
        final(done)@ == old(done)@ + v@.subrange(start as int, end as int),
{
    let ghost before = done@;
    let mut i: usize = start;
    assert(before + v@.subrange(start as int, start as int) =~= before);
    while i < end
        invariant
            start <= i <= end <= v@.len(),
            done@ == before + v@.subrange(start as int, i as int),
        decreases end - i,
    {
        done.push(v[i]);
        assert(done@ =~= before + v@.subrange(start as int, i + 1));
        i = i + 1;
    }
}

/// A type with each name in it by its last part, where it is one.
pub fn canonicalize_identity_type_tokens(value: &str) -> (r: Option<String>)
    ensures
        r.deep_view() == type_canonical(value@),
{
    let v = chars_of(value);
    let ghost start = Reading { depth: 0, expects: true, seen: false };
    let mut done: Vec<char> = Vec::new();
    let mut i: usize = 0;
    let mut depth: usize = 0;
    let mut expects = true;
    let mut seen = false;
    assert(done@ =~= Seq::empty());
    while i < v.len()
        invariant
            i <= v.len(),
            depth <= i,
            v@ == value@,
            start == (Reading { depth: 0, expects: true, seen: false }),
            type_read(v@, 0, start, Seq::empty()) == type_read(
                v@,
                i as int,
                (Reading { depth: depth as nat, expects, seen }),
                done@,
            ),
        decreases v.len() - i,
    {
        let c = v[i];
        if blank(c) {
            done.push(c);
            i = i + 1;
        } else if name_start(c) {
            let end: usize = end_of_name(&v, i + 1);
            let name = text_of(vstd::slice::slice_subrange(v.as_slice(), i, end));
            assert(name@ =~= v@.subrange(i as int, end as int));
            if !expects || !valid_qualified_identity_atom(name.as_str()) {
                return None;
            }
            if same_text(name.as_str(), "in") || same_text(name.as_str(), "out") {
                if end == v.len() || !blank(v[end]) {
                    return None;
                }
                append(&mut done, &v, i, end);
            } else {
                let at: usize = start_of_last_part(&v, i, end);
                append(&mut done, &v, at, end);
                proof {
                    assert(v@.subrange(at as int, end as int) =~= last_part(
                        v@.subrange(i as int, end as int),
                    ));
                }
                expects = false;
                seen = true;
            }
            i = end;
        } else {
            if c == '<' && !expects {
                depth = depth + 1;
                expects = true;
            } else if c == ',' && depth > 0 && !expects {
                expects = true;
            } else if c == '>' && depth > 0 && !expects {
                depth = depth - 1;
            } else if c == '*' && expects {
                expects = false;
                seen = true;
            } else if (c == '?' || c == '!') && !expects {
            } else if c == '&' && !expects {
                expects = true;
            } else {
                return None;
            }
            done.push(c);
            i = i + 1;
        }
    }
    if seen && !expects && depth == 0 {
        Some(text_of(done.as_slice()))
    } else {
        None
    }
}

/// Whether a member is a text that is not empty.
pub open spec fn says_something(identity: JsonModel, field: Seq<char>) -> bool {
    match identity.str_at(field) {
        Some(text) => text.len() > 0,
        None => false,
    }
}

fn has_text(identity: &Json, field: &str) -> (r: bool)
    ensures
        r == says_something(identity.deep_view(), field@),
{
    match identity.str_at(field) {
        Some(text) => text.as_str().unicode_len() > 0,
        None => false,
    }
}

/// Whether a value is a list of texts.
pub open spec fn is_text_list(value: Option<Seq<JsonModel>>) -> bool {
    match value {
        Some(items) => forall|i: int| 0 <= i < items.len() ==> (#[trigger] items[i]).as_str() is Some,
        None => false,
    }
}

fn json_string_array(value: Option<&Vec<Json>>) -> (r: bool)
    ensures
        r == is_text_list(value.deep_view()),
{
    match value {
        Some(items) => {
            let ghost m = items.deep_view();
            let mut i: usize = 0;
            while i < items.len()
                invariant
                    i <= items.len(),
                    m == items.deep_view(),
                    value.deep_view() == Some(m),
                    forall|k: int| 0 <= k < i ==> (#[trigger] m[k]).as_str() is Some,
                decreases items.len() - i,
            {
                assert(m[i as int] == items@[i as int].deep_view());
                if items[i].as_str().is_none() {
                    return false;
                }
                i = i + 1;
            }
            true
        },
        None => false,
    }
}

/// The types of a list from one on by their last names, behind some.
pub open spec fn types_canonical(
    items: Seq<JsonModel>,
    before: Seq<Seq<char>>,
    i: int,
) -> Option<Seq<Seq<char>>>
    decreases items.len() - i,
{
    if i < 0 || i >= items.len() {
        Some(before)
    } else {
        match items[i].as_str() {
            None => None,
            Some(text) => match type_canonical(text) {
                None => None,
                Some(short) => types_canonical(items, before.push(short), i + 1),
            },
        }
    }
}

fn canonical_types(items: &Vec<Json>) -> (r: Option<Vec<String>>)
    ensures
        r.deep_view() == types_canonical(items.deep_view(), Seq::empty(), 0),
{
    let ghost m = items.deep_view();
    let mut types: Vec<String> = Vec::new();
    let mut i: usize = 0;
    assert(types.deep_view() =~= Seq::empty());
    while i < items.len()
        invariant
            i <= items.len(),
            m == items.deep_view(),
            types_canonical(m, Seq::empty(), 0) == types_canonical(
                m,
                types.deep_view(),
                i as int,
            ),
        decreases items.len() - i,
    {
        assert(m[i as int] == items@[i as int].deep_view());
        match items[i].as_str() {
            None => {
                return None;
            },
            Some(text) => match canonicalize_identity_type_tokens(text.as_str()) {
                None => {
                    return None;
                },
                Some(short) => {
                    let ghost before = types.deep_view();
                    types.push(short);
                    assert(types.deep_view() =~= before.push(short@));
                },
            },
        }
        i = i + 1;
    }
    Some(types)
}

/// Whether an identity is one of a declaration, besides the types of its parameters.
pub open spec fn is_complete(identity: JsonModel) -> bool {
    says_something(identity, "module"@) && says_something(identity, "sourceSet"@)
        && says_something(identity, "package"@) && says_something(identity, "declarationName"@)
        && says_something(identity, "declarationKind"@) && says_something(identity, "returnType"@)
        && says_something(identity, "jvmDescriptor"@) && identity.u64_at("typeParameterArity"@)
        is Some && identity.bool_at("suspendFlag"@) is Some && is_text_list(
        identity.array_at("containingDeclarations"@),
    ) && is_text_list(identity.array_at("contextReceiverTypes"@))
}

/// The identity of a declaration with the types of its parameters and receivers by
/// their last names, where it is complete and they are types.
pub open spec fn identity_canonical(identity: JsonModel) -> Option<JsonModel> {
    if !is_complete(identity) {
        None
    } else {
        match identity.array_at("parameterTypes"@) {
            None => None,
            Some(parameters) => match types_canonical(parameters, Seq::empty(), 0) {
                None => None,
                Some(parameters) => match identity.array_at("receiverTypes"@) {
                    None => None,
                    Some(receivers) => match types_canonical(receivers, Seq::empty(), 0) {
                        None => None,
                        Some(receivers) => Some(
                            identity.with(
                                "parameterTypes"@,
                                <Vec<String> as Record>::json(parameters),
                            ).with("receiverTypes"@, <Vec<String> as Record>::json(receivers)),
                        ),
                    },
                },
            },
        }
    }
}

/// The identity of a declaration as a query has it.
pub fn canonicalize_owner_identity(identity: Json) -> (r: Option<Json>)
    ensures
        r.deep_view() == identity_canonical(identity.deep_view()),
{
    if !(has_text(&identity, "module") && has_text(&identity, "sourceSet") && has_text(
        &identity,
        "package",
    ) && has_text(&identity, "declarationName") && has_text(&identity, "declarationKind")
        && has_text(&identity, "returnType") && has_text(&identity, "jvmDescriptor")) {
        return None;
    }
    if identity.u64_at("typeParameterArity").is_none() || identity.bool_at("suspendFlag").is_none()
        || !json_string_array(identity.array_at("containingDeclarations")) || !json_string_array(
        identity.array_at("contextReceiverTypes"),
    ) {
        return None;
    }
    let parameters = match identity.array_at("parameterTypes") {
        Some(items) => canonical_types(items),
        None => None,
    };
    let receivers = match identity.array_at("receiverTypes") {
        Some(items) => canonical_types(items),
        None => None,
    };
    match (parameters, receivers) {
        (Some(parameters), Some(receivers)) => Some(
            identity.with("parameterTypes", parameters.to_json()).with(
                "receiverTypes",
                receivers.to_json(),
            ),
        ),
        _ => None,
    }
}

/// The text of the identity of a declaration as a query has it, from the value that
/// its text holds.
pub open spec fn owner_canonical(identity: Option<JsonModel>) -> Option<Seq<char>> {
    match identity {
        None => None,
        Some(value) => match identity_canonical(value) {
            None => None,
            Some(short) => Some(encoded(short)),
        },
    }
}

/// The text of the identity of a declaration as a query has it, where it holds a
/// complete one.
pub fn canonicalize_owner_symbol_query(owner: &str) -> (r: Option<String>)
    ensures
        r.deep_view() == owner_canonical(parsed_json(owner@)),
{
    match parse_json(owner) {
        None => None,
        Some(identity) => match canonicalize_owner_identity(identity) {
            None => None,
            Some(short) => Some(short.encode()),
        },
    }
}

} // verus!
