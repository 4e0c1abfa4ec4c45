//! JSON values, their canonical text, and the records that are written as JSON.

use vstd::prelude::*;
use vstd::string::*;

use crate::text::{same_text, text_before, text_less};

verus! {

/// A JSON value. The members of an object are kept in the order of their keys,
/// each key once.
#[derive(Debug, PartialEq, Eq)]
pub enum Json {
    Null,
    Bool(bool),
    Uint(u64),
    /// A negative integer.
    Int(i64),
    /// A number that is no 64-bit integer, by its text.
    Decimal(String),
    Str(String),
    Arr(Vec<Json>),
    Obj(Vec<(String, Json)>),
}

/// What a JSON value is.
pub enum JsonModel {
    Null,
    Bool(bool),
    Uint(u64),
    Int(i64),
    Decimal(Seq<char>),
    Str(Seq<char>),
    Arr(Seq<JsonModel>),
    Obj(Seq<(Seq<char>, JsonModel)>),
}

/// The model of a JSON value.
pub open spec fn json_model(j: Json) -> JsonModel
    decreases j,
{
    match j {
        Json::Null => JsonModel::Null,
        Json::Bool(b) => JsonModel::Bool(b),
        Json::Uint(n) => JsonModel::Uint(n),
        Json::Int(n) => JsonModel::Int(n),
        Json::Decimal(s) => JsonModel::Decimal(s@),
        Json::Str(s) => JsonModel::Str(s@),
        Json::Arr(v) => JsonModel::Arr(
            Seq::new(
                v@.len(),
                |i: int|
                    if 0 <= i < v@.len() {
                        json_model(v@[i])
                    } else {
                        JsonModel::Null
                    },
            ),
        ),
        Json::Obj(v) => JsonModel::Obj(
            Seq::new(
                v@.len(),
                |i: int|
                    if 0 <= i < v@.len() {
                        (v@[i].0@, json_model(v@[i].1))
                    } else {
                        (Seq::empty(), JsonModel::Null)
                    },
            ),
        ),
    }
}

impl DeepView for Json {
    type V = JsonModel;

    open spec fn deep_view(&self) -> JsonModel {
        json_model(*self)
    }
}

/// The members of an object.
pub type Members = Seq<(Seq<char>, JsonModel)>;

/// The members with one of them set: in its place by the order of the keys, or
/// instead of the member with the same key.
pub open spec fn put(m: Members, key: Seq<char>, value: JsonModel) -> Members
    decreases m.len(),
{
    if m.len() == 0 {
        seq![(key, value)]
    } else if m[0].0 == key {
        m.update(0, (key, value))
    } else if text_less(key, m[0].0) {
        seq![(key, value)] + m
    } else {
        seq![m[0]] + put(m.drop_first(), key, value)
    }
}

/// The value of the first member with a key.
pub open spec fn member(m: Members, key: Seq<char>) -> Option<JsonModel>
    decreases m.len(),
{
    if m.len() == 0 {
        None
    } else if m[0].0 == key {
        Some(m[0].1)
    } else {
        member(m.drop_first(), key)
    }
}

/// Whether the members stand in the order of their keys, each key once.
pub open spec fn ordered(m: Members) -> bool {
    forall|i: int, j: int| 0 <= i < j < m.len() ==> text_less(#[trigger] m[i].0, #[trigger] m[j].0)
}

impl JsonModel {
    /// The object without members.
    pub open spec fn object() -> JsonModel {
        JsonModel::Obj(Seq::empty())
    }

    /// The object with one member set. Another value stays as it is.
    pub open spec fn with(self, key: Seq<char>, value: JsonModel) -> JsonModel {
        match self {
            JsonModel::Obj(m) => JsonModel::Obj(put(m, key, value)),
            _ => self,
        }
    }

    /// The object with one member set where there is a value for it.
    pub open spec fn with_some(self, key: Seq<char>, value: Option<JsonModel>) -> JsonModel {
        match value {
            Some(v) => self.with(key, v),
            None => self,
        }
    }

    /// The member with a key, where the value is an object that has one.
    pub open spec fn get(self, key: Seq<char>) -> Option<JsonModel> {
        match self {
            JsonModel::Obj(m) => member(m, key),
            _ => None,
        }
    }

    /// The text of a string.
    pub open spec fn as_str(self) -> Option<Seq<char>> {
        match self {
            JsonModel::Str(s) => Some(s),
            _ => None,
        }
    }

    /// The items of an array.
    pub open spec fn as_array(self) -> Option<Seq<JsonModel>> {
        match self {
            JsonModel::Arr(s) => Some(s),
            _ => None,
        }
    }

    /// The truth value.
    pub open spec fn as_bool(self) -> Option<bool> {
        match self {
            JsonModel::Bool(b) => Some(b),
            _ => None,
        }
    }

    /// The unsigned integer.
    pub open spec fn as_u64(self) -> Option<u64> {
        match self {
            JsonModel::Uint(n) => Some(n),
            _ => None,
        }
    }

    /// The text of the string that a member holds.
    pub open spec fn str_at(self, key: Seq<char>) -> Option<Seq<char>> {
        match self.get(key) {
            Some(v) => v.as_str(),
            None => None,
        }
    }

    /// The items of the array that a member holds.
    pub open spec fn array_at(self, key: Seq<char>) -> Option<Seq<JsonModel>> {
        match self.get(key) {
            Some(v) => v.as_array(),
            None => None,
        }
    }

    /// The truth value that a member holds.
    pub open spec fn bool_at(self, key: Seq<char>) -> Option<bool> {
        match self.get(key) {
            Some(v) => v.as_bool(),
            None => None,
        }
    }

    /// The unsigned integer that a member holds.
    pub open spec fn u64_at(self, key: Seq<char>) -> Option<u64> {
        match self.get(key) {
            Some(v) => v.as_u64(),
            None => None,
        }
    }
}

/// The decimal digits of a number.
pub open spec fn digits(n: nat) -> Seq<char>
    decreases n,
{
    if n < 10 {
        seq![digit(n)]
    } else {
        digits(n / 10).push(digit(n % 10))
    }
}

/// A decimal digit.
pub open spec fn digit(n: nat) -> char {
    (48 + n) as char
}

/// A lower-case hexadecimal digit.
pub open spec fn hex_sign(n: nat) -> char {
    if n < 10 {
        digit(n)
    } else {
        (87 + n) as char
    }
}

/// What stands for a character in a JSON string: quotes, backslashes and the control
/// characters of ASCII are escaped, every other character stands for itself.
pub open spec fn escaped_char(c: char) -> Seq<char> {
    if c == '"' || c == '\\' {
        seq!['\\', c]
    } else if c == '\n' {
        seq!['\\', 'n']
    } else if c == '\r' {
        seq!['\\', 'r']
    } else if c == '\t' {
        seq!['\\', 't']
    } else if c as nat == 8 {
        seq!['\\', 'b']
    } else if c as nat == 12 {
        seq!['\\', 'f']
    } else if (c as nat) < 32 {
        seq!['\\', 'u', '0', '0', hex_sign(c as nat / 16), hex_sign(c as nat % 16)]
    } else {
        seq![c]
    }
}

/// The first `n` characters of a text, as they stand in a JSON string.
pub open spec fn escaped(s: Seq<char>, n: nat) -> Seq<char>
    decreases n,
{
    if n == 0 || n > s.len() {
        Seq::empty()
    } else {
        escaped(s, (n - 1) as nat) + escaped_char(s[n - 1])
    }
}

/// The JSON string literal of a text.
#[verifier::opaque]
pub open spec fn quoted(s: Seq<char>) -> Seq<char> {
    seq!['"'] + escaped(s, s.len()) + seq!['"']
}

/// The canonical text of a JSON value: compact, the members of an object in the
/// order in which they are kept.
pub open spec fn encoded(j: JsonModel) -> Seq<char>
    decreases j, 0nat,
{
    match j {
        JsonModel::Null => "null"@,
        JsonModel::Bool(b) => if b {
            "true"@
        } else {
            "false"@
        },
        JsonModel::Uint(n) => digits(n as nat),
        JsonModel::Int(n) => if n < 0 {
            "-"@ + digits((-n) as nat)
        } else {
            digits(n as nat)
        },
        JsonModel::Decimal(s) => s,
        JsonModel::Str(s) => quoted(s),
        JsonModel::Arr(s) => "["@ + encoded_items(s, s.len()) + "]"@,
        JsonModel::Obj(m) => "{"@ + encoded_members(m, m.len()) + "}"@,
    }
}

/// The first `n` items of an array, with commas between them.
pub open spec fn encoded_items(s: Seq<JsonModel>, n: nat) -> Seq<char>
    decreases s, n,
{
    if n == 0 || n > s.len() {
        Seq::empty()
    } else if n == 1 {
        encoded(s[0])
    } else {
        encoded_items(s, (n - 1) as nat) + ","@ + encoded(s[n - 1])
    }
}

/// The first `n` members of an object, with commas between them.
pub open spec fn encoded_members(m: Members, n: nat) -> Seq<char>
    decreases m, n,
{
    if n == 0 || n > m.len() {
        Seq::empty()
    } else if n == 1 {
        quoted(m[0].0) + ":"@ + encoded(m[0].1)
    } else {
        encoded_members(m, (n - 1) as nat) + ","@ + (quoted(m[n - 1].0) + ":"@ + encoded(
            m[n - 1].1,
        ))
    }
}

/// The canonical bytes of a JSON value.
pub open spec fn canonical_bytes(j: JsonModel) -> Seq<u8> {
    vstd::utf8::encode_utf8(encoded(j))
}

/// The JSON string literal of a text. Claims that the `Display` of a string in
/// `serde_json::Value` writes the text between quotes, with quotes, backslashes and the
/// control characters of ASCII escaped: by a letter where JSON has one, else by four
/// lower-case hexadecimal digits.
#[verifier::external_body]
fn quote(s: &str) -> (r: String)
    ensures
        r@ == quoted(s@),
{
    serde_json::Value::String(s.to_owned()).to_string()
}

/// The decimal text of a number.
pub fn decimal(n: u64) -> (r: String)
    ensures
        r@ == digits(n as nat),
    decreases n,
{
    let last: u8 = (n % 10) as u8;
    let c: char = (48u8 + last) as char;
    let v = vec![c];
    let end = crate::text::text_of(v.as_slice());
    if n < 10 {
        assert(end@ =~= seq![digit(n as nat)]);
        return end;
    }
    let head = decimal(n / 10);
    let r = crate::text::joined(head.as_str(), end.as_str());
    assert(r@ =~= digits((n / 10) as nat).push(digit((n % 10) as nat)));
    r
}


/// The model of the items of a list.
pub open spec fn models(v: Seq<Json>) -> Seq<JsonModel> {
    Seq::new(v.len(), |i: int| json_model(v[i]))
}

/// The model of the members of an object.
pub open spec fn member_models(v: Seq<(String, Json)>) -> Members {
    Seq::new(v.len(), |i: int| (v[i].0@, json_model(v[i].1)))
}

pub proof fn model_of_array(v: Vec<Json>)
    ensures
        json_model(Json::Arr(v)) == JsonModel::Arr(models(v@)),
{
    assert(json_model(Json::Arr(v))->Arr_0 =~= models(v@));
}

pub proof fn model_of_object(v: Vec<(String, Json)>)
    ensures
        json_model(Json::Obj(v)) == JsonModel::Obj(member_models(v@)),
{
    assert(json_model(Json::Obj(v))->Obj_0 =~= member_models(v@));
}

/// Where the first `i` keys all come before a key, the member is set behind them.
proof fn put_behind(m: Members, i: int, key: Seq<char>, value: JsonModel)
    requires
        0 <= i <= m.len(),
        forall|k: int| 0 <= k < i ==> text_less(#[trigger] m[k].0, key),
    ensures
        put(m, key, value) == m.take(i) + put(m.skip(i), key, value),
    decreases i,
{
    if i == 0 {
        assert(m.take(0) + put(m.skip(0), key, value) =~= put(m.skip(0), key, value));
        assert(m.skip(0) =~= m);
    } else {
        assert(text_less(m[0].0, key));
        crate::text::text_less_irreflexive(key);
        if text_less(key, m[0].0) {
            crate::text::text_less_transitive(key, m[0].0, key);
        }
        let rest = m.drop_first();
        assert forall|k: int| 0 <= k < i - 1 implies text_less(#[trigger] rest[k].0, key) by {
            assert(rest[k] == m[k + 1]);
        }
        put_behind(rest, i - 1, key, value);
        assert(rest.skip(i - 1) =~= m.skip(i));
        assert(seq![m[0]] + (rest.take(i - 1) + put(m.skip(i), key, value)) =~= m.take(i) + put(
            m.skip(i),
            key,
            value,
        ));
    }
}

/// Where none of the first `i` members has a key, it is found behind them.
proof fn member_behind(m: Members, i: int, key: Seq<char>)
    requires
        0 <= i <= m.len(),
        forall|k: int| 0 <= k < i ==> #[trigger] m[k].0 != key,
    ensures
        member(m, key) == member(m.skip(i), key),
    decreases i,
{
    if i == 0 {
        assert(m.skip(0) =~= m);
    } else {
        assert(m[0].0 != key);
        let rest = m.drop_first();
        assert forall|k: int| 0 <= k < i - 1 implies #[trigger] rest[k].0 != key by {
            assert(rest[k] == m[k + 1]);
        }
        member_behind(rest, i - 1, key);
        assert(rest.skip(i - 1) =~= m.skip(i));
    }
}

/// Setting a member keeps the order of the keys.
pub proof fn put_keeps_order(m: Members, key: Seq<char>, value: JsonModel)
    requires
        ordered(m),
    ensures
        ordered(put(m, key, value)),
        forall|k: int|
            0 <= k < put(m, key, value).len() ==> (#[trigger] put(m, key, value)[k].0 == key
                || exists|j: int| 0 <= j < m.len() && m[j].0 == put(m, key, value)[k].0),
    decreases m.len(),
{
    let r = put(m, key, value);
    if m.len() == 0 {
    } else if m[0].0 == key {
        assert(forall|k: int| 0 <= k < r.len() ==> #[trigger] r[k].0 == m[k].0);
    } else if text_less(key, m[0].0) {
        assert forall|k: int| 0 < k < r.len() implies text_less(key, #[trigger] r[k].0) by {
            assert(r[k] == m[k - 1]);
            if k > 1 {
                assert(text_less(m[0].0, m[k - 1].0));
                crate::text::text_less_transitive(key, m[0].0, m[k - 1].0);
            }
        }
        assert forall|i: int, j: int| 0 <= i < j < r.len() implies text_less(
            #[trigger] r[i].0,
            #[trigger] r[j].0,
        ) by {
            if i > 0 {
                assert(r[i] == m[i - 1] && r[j] == m[j - 1]);
            }
        }
        assert forall|k: int| 0 <= k < r.len() implies (#[trigger] r[k].0 == key || exists|j: int|
            0 <= j < m.len() && m[j].0 == r[k].0) by {
            if k > 0 {
                assert(r[k] == m[k - 1]);
            }
        }
    } else {
        crate::text::text_less_total(key, m[0].0);
        let rest = m.drop_first();
        assert forall|i: int, j: int| 0 <= i < j < rest.len() implies text_less(
            #[trigger] rest[i].0,
            #[trigger] rest[j].0,
        ) by {
            assert(rest[i] == m[i + 1] && rest[j] == m[j + 1]);
        }
        put_keeps_order(rest, key, value);
        let t = put(rest, key, value);
        assert forall|k: int| 0 <= k < t.len() implies text_less(m[0].0, #[trigger] t[k].0) by {
            if t[k].0 != key {
                let j = choose|j: int| 0 <= j < rest.len() && rest[j].0 == t[k].0;
                assert(rest[j] == m[j + 1]);
            }
        }
        assert forall|i: int, j: int| 0 <= i < j < r.len() implies text_less(
            #[trigger] r[i].0,
            #[trigger] r[j].0,
        ) by {
            assert(r[j] == t[j - 1]);
            if i > 0 {
                assert(r[i] == t[i - 1]);
            }
        }
        assert forall|k: int| 0 <= k < r.len() implies (#[trigger] r[k].0 == key || exists|j: int|
            0 <= j < m.len() && m[j].0 == r[k].0) by {
            if k > 0 {
                assert(r[k] == t[k - 1]);
                if t[k - 1].0 != key {
                    let j = choose|j: int| 0 <= j < rest.len() && rest[j].0 == t[k - 1].0;
                    assert(m[j + 1].0 == r[k].0);
                }
            } else {
                assert(m[0].0 == r[0].0);
            }
        }
    }
}

/// A member that was set is found, and every other member is found as before.
pub proof fn member_of_put(m: Members, key: Seq<char>, value: JsonModel, other: Seq<char>)
    ensures
        member(put(m, key, value), other) == if other == key {
            Some(value)
        } else {
            member(m, other)
        },
    decreases m.len(),
{
    let r = put(m, key, value);
    if m.len() == 0 {
        assert(r.drop_first() =~= m);
    } else if m[0].0 == key {
        assert(r.drop_first() =~= m.drop_first());
    } else if text_less(key, m[0].0) {
        assert(r.drop_first() =~= m);
        if other == key {
        }
    } else {
        member_of_put(m.drop_first(), key, value, other);
        assert(r.drop_first() =~= put(m.drop_first(), key, value));
    }
}

/// A list of values as one value.
pub fn list(v: Vec<Json>) -> (r: Json)
    ensures
        r.deep_view() == JsonModel::Arr(v.deep_view()),
{
    proof {
        model_of_array(v);
        assert(models(v@) =~= v.deep_view());
    }
    Json::Arr(v)
}

impl Json {
    /// The object without members.
    pub fn object() -> (r: Json)
        ensures
            r.deep_view() == JsonModel::object(),
    {
        let v: Vec<(String, Json)> = Vec::new();
        proof {
            model_of_object(v);
            assert(member_models(v@) =~= Seq::empty());
        }
        Json::Obj(v)
    }

    /// The object with one member set. Another value stays as it is.
    pub fn with(self, key: &str, value: Json) -> (r: Json)
        ensures
            r.deep_view() == self.deep_view().with(key@, value.deep_view()),
    {
        match self {
            Json::Obj(v) => {
                proof {
                    model_of_object(v);
                }
                let r = put_member(v, key, value);
                proof {
                    model_of_object(r);
                }
                Json::Obj(r)
            },
            other => other,
        }
    }

    /// The object with one member set where there is a value for it.
    pub fn with_some(self, key: &str, value: Option<Json>) -> (r: Json)
        ensures
            r.deep_view() == self.deep_view().with_some(key@, value.deep_view()),
    {
        match value {
            Some(v) => self.with(key, v),
            None => self,
        }
    }

    /// The member with a key, where the value is an object that has one.
    pub fn get(&self, key: &str) -> (r: Option<&Json>)
        ensures
            r.deep_view() == self.deep_view().get(key@),
    {
        match self {
            Json::Obj(v) => {
                proof {
                    model_of_object(*v);
                }
                let mut i: usize = 0;
                while i < v.len()
                    invariant
                        i <= v.len(),
                        forall|k: int| 0 <= k < i ==> #[trigger] member_models(v@)[k].0 != key@,
                        self.deep_view() == JsonModel::Obj(member_models(v@)),
                    decreases v.len() - i,
                {
                    if same_text(v[i].0.as_str(), key) {
                        proof {
                            member_behind(member_models(v@), i as int, key@);
                        }
                        return Some(&v[i].1);
                    }
                    i = i + 1;
                }
                proof {
                    member_behind(member_models(v@), i as int, key@);
                }
                None
            },
            _ => None,
        }
    }

    /// The text of a string.
    pub fn as_str(&self) -> (r: Option<&String>)
        ensures
            r.deep_view() == self.deep_view().as_str(),
    {
        match self {
            Json::Str(s) => Some(s),
            _ => None,
        }
    }

    /// The items of an array.
    pub fn as_array(&self) -> (r: Option<&Vec<Json>>)
        ensures
            r.deep_view() == self.deep_view().as_array(),
    {
        match self {
            Json::Arr(v) => {
                proof {
                    model_of_array(*v);
                    assert(v.deep_view() =~= models(v@));
                }
                Some(v)
            },
            _ => None,
        }
    }

    /// The truth value.
    pub fn as_bool(&self) -> (r: Option<bool>)
        ensures
            r == self.deep_view().as_bool(),
    {
        match self {
            Json::Bool(b) => Some(*b),
            _ => None,
        }
    }

    /// The unsigned integer.
    pub fn as_u64(&self) -> (r: Option<u64>)
        ensures
            r == self.deep_view().as_u64(),
    {
        match self {
            Json::Uint(n) => Some(*n),
            _ => None,
        }
    }

    /// The text of the string that a member holds.
    pub fn str_at(&self, key: &str) -> (r: Option<&String>)
        ensures
            r.deep_view() == self.deep_view().str_at(key@),
    {
        match self.get(key) {
            Some(v) => v.as_str(),
            None => None,
        }
    }

    /// The items of the array that a member holds.
    pub fn array_at(&self, key: &str) -> (r: Option<&Vec<Json>>)
        ensures
            r.deep_view() == self.deep_view().array_at(key@),
    {
        match self.get(key) {
            Some(v) => v.as_array(),
            None => None,
        }
    }

    /// The truth value that a member holds.
    pub fn bool_at(&self, key: &str) -> (r: Option<bool>)
        ensures
            r == self.deep_view().bool_at(key@),
    {
        match self.get(key) {
            Some(v) => v.as_bool(),
            None => None,
        }
    }

    /// The unsigned integer that a member holds.
    pub fn u64_at(&self, key: &str) -> (r: Option<u64>)
        ensures
            r == self.deep_view().u64_at(key@),
    {
        match self.get(key) {
            Some(v) => v.as_u64(),
            None => None,
        }
    }

    /// The canonical text.
    pub fn encode(&self) -> (r: String)
        ensures
            r@ == encoded(self.deep_view()),
        decreases self,
    {
        match self {
            Json::Null => "null".to_owned(),
            Json::Bool(b) => if *b {
                "true".to_owned()
            } else {
                "false".to_owned()
            },
            Json::Uint(n) => decimal(*n),
            Json::Int(n) => if *n < 0 {
                let m: u64 = (-(*n as i128)) as u64;
                crate::text::joined("-", decimal(m).as_str())
            } else {
                decimal(*n as u64)
            },
            Json::Decimal(s) => s.clone(),
            Json::Str(s) => quote(s.as_str()),
            Json::Arr(v) => {
                proof {
                    model_of_array(*v);
                }
                let mut r = "[".to_owned();
                let mut i: usize = 0;
                assert("["@ + Seq::empty() =~= "["@);
                while i < v.len()
                    invariant
                        i <= v.len(),
                        r@ == "["@ + encoded_items(models(v@), i as nat),
                        self == Json::Arr(*v),
                    decreases v.len() - i,
                {
                    if i > 0 {
                        r.append(",");
                    }
                    assert(decreases_to!(self => self->Arr_0));
                    let item = v[i].encode();
                    r.append(item.as_str());
                    proof {
                        let s = models(v@);
                        assert(json_model(v@[i as int]) == s[i as int]);
                        if i > 0 {
                            assert(r@ =~= "["@ + (encoded_items(s, i as nat) + ","@ + encoded(
                                s[i as int],
                            )));
                        } else {
                            assert(r@ =~= "["@ + encoded(s[0]));
                        }
                    }
                    i = i + 1;
                }
                r.append("]");
                r
            },
            Json::Obj(v) => {
                proof {
                    model_of_object(*v);
                }
                let mut r = "{".to_owned();
                let mut i: usize = 0;
                assert("{"@ + Seq::empty() =~= "{"@);
                while i < v.len()
                    invariant
                        i <= v.len(),
                        r@ == "{"@ + encoded_members(member_models(v@), i as nat),
                        self == Json::Obj(*v),
                    decreases v.len() - i,
                {
                    if i > 0 {
                        r.append(",");
                    }
                    let key = quote(v[i].0.as_str());
                    assert(decreases_to!(self => self->Obj_0));
                    let item = v[i].1.encode();
                    r.append(key.as_str());
                    r.append(":");
                    r.append(item.as_str());
                    proof {
                        let s = member_models(v@);
                        assert((v@[i as int].0@, json_model(v@[i as int].1)) == s[i as int]);
                        if i > 0 {
                            assert(r@ =~= "{"@ + (encoded_members(s, i as nat) + ","@ + (quoted(
                                s[i as int].0,
                            ) + ":"@ + encoded(s[i as int].1))));
                        } else {
                            assert(r@ =~= "{"@ + (quoted(s[0].0) + ":"@ + encoded(s[0].1)));
                        }
                    }
                    i = i + 1;
                }
                r.append("}");
                r
            },
        }
    }

    /// The canonical bytes.
    pub fn bytes(&self) -> (r: Vec<u8>)
        ensures
            r@ == canonical_bytes(self.deep_view()),
    {
        self.encode().as_str().as_bytes_vec()
    }
}

/// The members with one of them set.
fn put_member(v: Vec<(String, Json)>, key: &str, value: Json) -> (r: Vec<(String, Json)>)
    ensures
        member_models(r@) == put(member_models(v@), key@, value.deep_view()),
{
    let ghost m = member_models(v@);
    let mut r = v;
    let mut i: usize = 0;
    while i < r.len() && text_before(r[i].0.as_str(), key)
        invariant
            r@ == v@,
            i <= r.len(),
            m == member_models(v@),
            forall|k: int| 0 <= k < i ==> text_less(#[trigger] m[k].0, key@),
        decreases r.len() - i,
    {
        i = i + 1;
    }
    proof {
        put_behind(m, i as int, key@, value.deep_view());
    }
    let ghost rest = m.skip(i as int);
    if i < r.len() && same_text(r[i].0.as_str(), key) {
        r[i] = (key.to_owned(), value);
        assert(member_models(r@) =~= m.take(i as int) + rest.update(0, (key@, value.deep_view())));
    } else {
        r.insert(i, (key.to_owned(), value));
        proof {
            if i < m.len() {
                crate::text::text_less_total(key@, m[i as int].0);
            }
            assert(rest.len() > 0 ==> rest[0] == m[i as int]);
            if rest.len() == 0 {
                assert(seq![(key@, value.deep_view())] + rest =~= seq![(key@, value.deep_view())]);
            }
            assert(member_models(r@) =~= m.take(i as int) + (seq![(key@, value.deep_view())]
                + rest));
        }
    }
    r
}

/// A member that was set in an object is found in it, and every other member is found as
/// before.
pub proof fn member_of_with(j: JsonModel, key: Seq<char>, value: JsonModel, other: Seq<char>)
    requires
        j is Obj,
    ensures
        j.with(key, value) is Obj,
        j.with(key, value).get(other) == if other == key {
            Some(value)
        } else {
            j.get(other)
        },
{
    member_of_put(j->Obj_0, key, value, other);
}

/// Setting a member of an object sets that member and leaves every other as it is.
pub proof fn members_of_with(j: JsonModel, key: Seq<char>, value: JsonModel)
    requires
        j is Obj,
    ensures
        j.with(key, value) is Obj,
        forall|other: Seq<char>| #[trigger]
            j.with(key, value).get(other) == if other == key {
                Some(value)
            } else {
                j.get(other)
            },
{
    assert forall|other: Seq<char>| #[trigger]
        j.with(key, value).get(other) == if other == key {
            Some(value)
        } else {
            j.get(other)
        } by {
        member_of_with(j, key, value, other);
    }
}

/// The value under a key is that of a member, and where there is none, no member has the key.
pub proof fn member_is_there(m: Members, key: Seq<char>)
    ensures
        match member(m, key) {
            Some(v) => exists|i: int| 0 <= i < m.len() && #[trigger] m[i] == (key, v),
            None => forall|i: int| 0 <= i < m.len() ==> (#[trigger] m[i]).0 != key,
        },
    decreases m.len(),
{
    if m.len() > 0 {
        let rest = m.drop_first();
        member_is_there(rest, key);
        if m[0].0 == key {
            assert(m[0] == (key, m[0].1));
        } else {
            match member(rest, key) {
                Some(v) => {
                    let i = choose|i: int| 0 <= i < rest.len() && #[trigger] rest[i] == (key, v);
                    assert(m[i + 1] == (key, v));
                },
                None => {
                    assert forall|i: int| 0 <= i < m.len() implies (#[trigger] m[i]).0 != key by {
                        if i > 0 {
                            assert(rest[i - 1] == m[i]);
                        }
                    }
                },
            }
        }
    }
}

} // verus!
