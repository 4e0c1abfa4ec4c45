//! What a comparison of two declarations sees: a change of every part that it names is
//! observed under the code of that part, whatever else differs, and nothing is observed of
//! parts that are the same.

use vstd::prelude::*;
use vstd::string::*;

use crate::json::{member, members_of_with, ordered, put_keeps_order, JsonModel, Members};
use crate::order;
use crate::record::Record;
use crate::text::{found_where_it_stands, text_less, text_less_irreflexive};
use crate::text::text_less_transitive;
use crate::thread_callables::DeclarationKind;
use crate::thread_change_set::{
    bound_compared, bounds_compared, descriptor_of, is_known_part, nullability_compared, observed,
    pair_compared, parameter_compared, parameters_compared, part_compared, parts_compared,
    receiver_compared, remaining_parts, residue_of, result_compared, text_or_null, type_at,
    type_normalized, visibility_compared, ChangeDeclarationEvidence, ChangeDeclarationEvidenceModel,
    ChangeObligationDetailModel, ChangeObligationPhase, Compared, ComparisonObligationCode,
    KotlinChangeCode, KotlinChangeObservationModel,
};
use crate::thread_impact::ImpactSide;

verus! {

/// What a value has under a key; null stands for nothing.
pub open spec fn value_at(value: JsonModel, key: Seq<char>) -> JsonModel {
    match value.get(key) {
        Some(found) => found,
        None => JsonModel::Null,
    }
}

/// The list that a value has under a key; an empty one stands for anything else.
pub open spec fn list_at(value: JsonModel, key: Seq<char>) -> Seq<JsonModel> {
    match value.get(key) {
        Some(JsonModel::Arr(items)) => items,
        _ => Seq::empty(),
    }
}

/// Whether two texts differ at most in one question mark at the end of one of them.
pub open spec fn same_but_for_mark(s: Seq<char>, t: Seq<char>) -> bool {
    ||| s == t
    ||| s == t.push('?') && !(t.len() > 0 && t.last() == '?')
    ||| t == s.push('?') && !(s.len() > 0 && s.last() == '?')
}

/// Whether two types are the same, whether or not they may be null.
pub open spec fn same_type(v: JsonModel, w: JsonModel) -> bool {
    match (v, w) {
        (JsonModel::Str(s), JsonModel::Str(t)) => same_but_for_mark(s, t),
        _ => v == w,
    }
}

/// Whether two values have the same type under a key, or both have none.
pub open spec fn same_type_at(x: JsonModel, y: JsonModel, key: Seq<char>) -> bool {
    match (x.get(key), y.get(key)) {
        (Some(v), Some(w)) => same_type(v, w),
        (None, None) => true,
        _ => false,
    }
}

/// Whether two values have the same under a key, or both have nothing.
pub open spec fn same_at(x: JsonModel, y: JsonModel, key: Seq<char>) -> bool {
    x.get(key) == y.get(key)
}

/// Whether a text stands at a place of another one, and nowhere before.
pub open spec fn stands_first(s: Seq<char>, p: Seq<char>, i: int) -> bool {
    &&& 0 <= i && i + p.len() <= s.len() && s.subrange(i, i + p.len()) == p
    &&& forall|j: int| 0 <= j < i ==> #[trigger] s.subrange(j, j + p.len()) != p
}

/// Whether a value is the descriptor of a declaration on the JVM: the one in its shape, or
/// else what follows the first mark in its symbol, or else nothing.
pub open spec fn is_descriptor(d: ChangeDeclarationEvidenceModel, v: JsonModel) -> bool {
    match d.projected_shape.get("jvmDescriptor"@) {
        Some(said) => v == said,
        None => {
            let symbol = d.symbol_identity;
            ||| exists|i: int| #[trigger]
                stands_first(symbol, "#jvm:"@, i) && v == JsonModel::Str(
                    symbol.skip(i + "#jvm:"@.len()),
                )
            ||| v == JsonModel::Null && forall|i: int| !#[trigger] stands_first(symbol, "#jvm:"@, i)
        },
    }
}

/// Whether two declarations have the same descriptor on the JVM.
pub open spec fn same_descriptor(
    b: ChangeDeclarationEvidenceModel,
    a: ChangeDeclarationEvidenceModel,
) -> bool {
    exists|v: JsonModel| #[trigger] is_descriptor(b, v) && is_descriptor(a, v)
}

/// Whether two shapes have as many parameters, each with the same index and type.
pub open spec fn same_parameters(x: JsonModel, y: JsonModel) -> bool {
    let p = list_at(x, "parameterTypes"@);
    let q = list_at(y, "parameterTypes"@);
    p.len() == q.len() && forall|i: int|
        #![trigger p[i]]
        #![trigger q[i]]
        0 <= i < p.len() ==> same_at(p[i], q[i], "index"@) && same_type_at(p[i], q[i], "type"@)
}

/// Whether two shapes return and declare the same types.
pub open spec fn same_result(x: JsonModel, y: JsonModel) -> bool {
    same_type_at(x, y, "returnType"@) && same_type_at(x, y, "declaredType"@)
}

/// The type of the receiver of a shape: what it says under its type, or itself.
pub open spec fn receiver_of(x: JsonModel) -> JsonModel {
    match x.get("receiverType"@) {
        Some(receiver) => match receiver.get("type"@) {
            Some(said) => said,
            None => receiver,
        },
        None => JsonModel::Null,
    }
}

/// Whether the same parts of two shapes may be null: the result, the declared type, each
/// parameter and the receiver.
pub open spec fn same_nullability(x: JsonModel, y: JsonModel) -> bool {
    &&& same_at(x, y, "returnNullable"@)
    &&& same_at(x, y, "declaredNullable"@)
    &&& match (x.get("parameterTypes"@), y.get("parameterTypes"@)) {
        (Some(JsonModel::Arr(p)), Some(JsonModel::Arr(q))) => p.len() == q.len() && forall|i: int|
            #![trigger p[i]]
            #![trigger q[i]]
            0 <= i < p.len() ==> value_at(p[i], "nullable"@) == value_at(q[i], "nullable"@),
        (Some(JsonModel::Arr(_)), _) => false,
        (_, Some(JsonModel::Arr(_))) => false,
        _ => true,
    }
    &&& match (x.get("receiverType"@), y.get("receiverType"@)) {
        (Some(r), Some(s)) => value_at(r, "nullable"@) == value_at(s, "nullable"@),
        (None, None) => true,
        _ => false,
    }
}

/// Whether two shapes have as many type parameters, each with the same index and bounds.
pub open spec fn same_bounds(x: JsonModel, y: JsonModel) -> bool {
    let p = list_at(x, "typeParameters"@);
    let q = list_at(y, "typeParameters"@);
    p.len() == q.len() && forall|i: int|
        #![trigger p[i]]
        #![trigger q[i]]
        0 <= i < p.len() ==> same_at(p[i], q[i], "index"@) && same_at(p[i], q[i], "bounds"@)
}

/// Whether a part of a shape has a code of its own.
pub open spec fn has_own_code(key: Seq<char>) -> bool {
    ||| key == "symbolIdentity"@
    ||| key == "jvmDescriptor"@
    ||| key == "parameterTypes"@
    ||| key == "returnType"@
    ||| key == "returnNullable"@
    ||| key == "declaredType"@
    ||| key == "declaredNullable"@
    ||| key == "receiverType"@
    ||| key == "typeParameters"@
    ||| key == "visibility"@
    ||| key == "effectiveVisibility"@
    ||| key == "exportBoundary"@
    ||| key == "modality"@
    ||| key == "isOverride"@
}

/// Whether the declaration itself says what stands under a key.
pub open spec fn is_said_beside(key: Seq<char>) -> bool {
    key == "declarationKind"@ || key == "compilerCallableId"@ || key == "compilerClassId"@
}

/// Whether two declarations are the same in all that has no code of its own.
pub open spec fn same_rest(
    b: ChangeDeclarationEvidenceModel,
    a: ChangeDeclarationEvidenceModel,
) -> bool {
    &&& b.declaration_kind == a.declaration_kind
    &&& b.compiler_callable_id == a.compiler_callable_id
    &&& b.compiler_class_id == a.compiler_class_id
    &&& forall|key: Seq<char>|
        !has_own_code(key) && !is_said_beside(key) ==> #[trigger] b.projected_shape.get(key)
            == a.projected_shape.get(key)
}

/// Whether two declarations differ in what a code stands for.
pub open spec fn differ_in(
    code: KotlinChangeCode,
    b: ChangeDeclarationEvidenceModel,
    a: ChangeDeclarationEvidenceModel,
) -> bool {
    let x = b.projected_shape;
    let y = a.projected_shape;
    match code {
        KotlinChangeCode::KcdJvmDescriptorChanged => !same_descriptor(b, a),
        KotlinChangeCode::KcdParameterTypesChanged => !same_parameters(x, y),
        KotlinChangeCode::KcdReturnTypeChanged => !same_result(x, y),
        KotlinChangeCode::KcdReceiverTypeChanged => !same_type(receiver_of(x), receiver_of(y)),
        KotlinChangeCode::KcdNullabilityChanged => !same_nullability(x, y),
        KotlinChangeCode::KcdTypeParameterBoundsChanged => !same_bounds(x, y),
        KotlinChangeCode::KcdVisibilityChanged => !(same_at(x, y, "visibility"@) && same_at(
            x,
            y,
            "effectiveVisibility"@,
        ) && same_at(x, y, "exportBoundary"@)),
        KotlinChangeCode::KcdModalityChanged => value_at(x, "modality"@) != value_at(
            y,
            "modality"@,
        ),
        KotlinChangeCode::KcdOverrideStatusChanged => value_at(x, "isOverride"@) != value_at(
            y,
            "isOverride"@,
        ),
        KotlinChangeCode::KcdUnsupportedComparison => !same_rest(b, a),
        _ => false,
    }
}

/// Whether the members of the shape of a declaration stand in order, each key once.
pub open spec fn has_ordered_shape(d: ChangeDeclarationEvidenceModel) -> bool {
    match d.projected_shape {
        JsonModel::Obj(members) => ordered(members),
        _ => true,
    }
}

proof fn members_of_with_some(j: JsonModel, key: Seq<char>, value: Option<JsonModel>)
    requires
        j is Obj,
    ensures
        j.with_some(key, value) is Obj,
        forall|other: Seq<char>| #[trigger]
            j.with_some(key, value).get(other) == if other == key && value is Some {
                value
            } else {
                j.get(other)
            },
{
    if let Some(v) = value {
        members_of_with(j, key, v);
    }
}

proof fn mark_is_taken_off(v: JsonModel, w: JsonModel)
    ensures
        (type_normalized(v) == type_normalized(w)) == same_type(v, w),
{
    if let JsonModel::Str(s) = v {
        if let JsonModel::Str(t) = w {
            if s.len() > 0 {
                assert(s =~= s.drop_last().push(s.last()));
            }
            if t.len() > 0 {
                assert(t =~= t.drop_last().push(t.last()));
            }
            if s == t.push('?') {
                assert(s.drop_last() =~= t);
            }
            if t == s.push('?') {
                assert(t.drop_last() =~= s);
            }
        }
    }
}

proof fn mark_is_taken_off_at(x: JsonModel, y: JsonModel, key: Seq<char>)
    ensures
        (type_at(x, key) == type_at(y, key)) == same_type_at(x, y, key),
{
    if let Some(v) = x.get(key) {
        if let Some(w) = y.get(key) {
            mark_is_taken_off(v, w);
        }
    }
}

proof fn descriptor_is_seen(d: ChangeDeclarationEvidenceModel, v: JsonModel)
    ensures
        is_descriptor(d, v) <==> v == descriptor_of(d),
{
    let s = d.symbol_identity;
    let p = "#jvm:"@;
    reveal_strlit("#jvm:");
    crate::text::found_is_first(s, p);
    if d.projected_shape.get("jvmDescriptor"@) is None {
        match crate::text::found(s, p) {
            Some(i) => {
                assert(stands_first(s, p, i));
                assert forall|j: int| #[trigger] stands_first(s, p, j) implies j == i by {
                    if j < i {
                        assert(s.subrange(j, j + p.len()) != p);
                    } else if i < j {
                        assert(s.subrange(i, i + p.len()) != p);
                    }
                }
            },
            None => {
                assert forall|j: int| !#[trigger] stands_first(s, p, j) by {
                    if stands_first(s, p, j) {
                        found_where_it_stands(s, p, j);
                    }
                }
            },
        }
    }
}

proof fn descriptors_are_seen(
    b: ChangeDeclarationEvidenceModel,
    a: ChangeDeclarationEvidenceModel,
)
    ensures
        (descriptor_of(b) == descriptor_of(a)) == same_descriptor(b, a),
{
    assert forall|v: JsonModel| #[trigger] is_descriptor(b, v) implies v == descriptor_of(b) by {
        descriptor_is_seen(b, v);
    }
    assert forall|v: JsonModel| #[trigger] is_descriptor(a, v) implies v == descriptor_of(a) by {
        descriptor_is_seen(a, v);
    }
    descriptor_is_seen(b, descriptor_of(b));
    descriptor_is_seen(a, descriptor_of(a));
}

proof fn part_keys_differ()
    ensures
        "index"@ != "type"@,
        "index"@ != "bounds"@,
{
    reveal_strlit("index");
    reveal_strlit("type");
    reveal_strlit("bounds");
    assert("index"@.len() == 5);
    assert("type"@.len() == 4);
    assert("bounds"@.len() == 6);
}

proof fn result_keys_differ()
    ensures
        "returnType"@ != "declaredType"@,
{
    reveal_strlit("returnType");
    reveal_strlit("declaredType");
    assert("returnType"@.len() == 10);
    assert("declaredType"@.len() == 12);
}

proof fn null_keys_differ()
    ensures
        "returnNullable"@ != "declaredNullable"@,
        "returnNullable"@ != "parameterNullability"@,
        "returnNullable"@ != "receiverNullable"@,
        "declaredNullable"@ != "parameterNullability"@,
        "declaredNullable"@ != "receiverNullable"@,
        "parameterNullability"@ != "receiverNullable"@,
{
    reveal_strlit("returnNullable");
    reveal_strlit("declaredNullable");
    reveal_strlit("parameterNullability");
    reveal_strlit("receiverNullable");
    assert("returnNullable"@.len() == 14);
    assert("declaredNullable"@.len() == 16);
    assert("parameterNullability"@.len() == 20);
    assert("receiverNullable"@.len() == 16);
    assert("declaredNullable"@[0] == 'd');
    assert("receiverNullable"@[0] == 'r');
}

proof fn sight_keys_differ()
    ensures
        "visibility"@ != "effectiveVisibility"@,
        "visibility"@ != "exportBoundary"@,
        "effectiveVisibility"@ != "exportBoundary"@,
{
    reveal_strlit("visibility");
    reveal_strlit("effectiveVisibility");
    reveal_strlit("exportBoundary");
    assert("visibility"@.len() == 10);
    assert("effectiveVisibility"@.len() == 19);
    assert("exportBoundary"@.len() == 14);
}

proof fn beside_keys_differ()
    ensures
        "declarationKind"@ != "compilerCallableId"@,
        "declarationKind"@ != "compilerClassId"@,
        "compilerCallableId"@ != "compilerClassId"@,
{
    reveal_strlit("declarationKind");
    reveal_strlit("compilerCallableId");
    reveal_strlit("compilerClassId");
    assert("declarationKind"@.len() == 15);
    assert("compilerCallableId"@.len() == 18);
    assert("compilerClassId"@.len() == 15);
    assert("compilerClassId"@[0] == 'c');
    assert("declarationKind"@[0] == 'd');
}

proof fn parameter_is_seen(p: JsonModel, q: JsonModel)
    ensures
        (parameter_compared(p) == parameter_compared(q)) == (same_at(p, q, "index"@)
            && same_type_at(p, q, "type"@)),
{
    part_keys_differ();
    mark_is_taken_off_at(p, q, "type"@);
    let o = JsonModel::object();
    assert(o.get("index"@) is None && o.get("type"@) is None);
    members_of_with_some(o, "index"@, p.get("index"@));
    members_of_with_some(o, "index"@, q.get("index"@));
    members_of_with_some(o.with_some("index"@, p.get("index"@)), "type"@, type_at(p, "type"@));
    members_of_with_some(o.with_some("index"@, q.get("index"@)), "type"@, type_at(q, "type"@));
    assert(parameter_compared(p).get("index"@) == p.get("index"@));
    assert(parameter_compared(q).get("index"@) == q.get("index"@));
    assert(parameter_compared(p).get("type"@) == type_at(p, "type"@));
    assert(parameter_compared(q).get("type"@) == type_at(q, "type"@));
}

proof fn parameters_are_seen(x: JsonModel, y: JsonModel)
    ensures
        (parameters_compared(x) == parameters_compared(y)) == same_parameters(x, y),
{
    let p = list_at(x, "parameterTypes"@);
    let q = list_at(y, "parameterTypes"@);
    let u = parameters_compared(x)->Arr_0;
    let v = parameters_compared(y)->Arr_0;
    assert(u.len() == p.len() && v.len() == q.len());
    assert forall|i: int| 0 <= i < p.len() && 0 <= i < q.len() implies (#[trigger] u[i] == v[i])
        == (same_at(p[i], q[i], "index"@) && same_type_at(p[i], q[i], "type"@)) by {
        parameter_is_seen(p[i], q[i]);
    }
    if u == v {
        assert forall|i: int| 0 <= i < p.len() implies same_at(p[i], q[i], "index"@)
            && same_type_at(p[i], q[i], "type"@) by {
            assert(u[i] == v[i]);
        }
    }
    if same_parameters(x, y) {
        assert forall|i: int| 0 <= i < u.len() implies u[i] == v[i] by {
            assert(same_at(p[i], q[i], "index"@) && same_type_at(p[i], q[i], "type"@));
        }
        assert(u =~= v);
    }
}

proof fn result_is_seen(x: JsonModel, y: JsonModel)
    ensures
        (result_compared(x) == result_compared(y)) == same_result(x, y),
{
    result_keys_differ();
    mark_is_taken_off_at(x, y, "returnType"@);
    mark_is_taken_off_at(x, y, "declaredType"@);
    let o = JsonModel::object();
    let (r, d) = ("returnType"@, "declaredType"@);
    assert(o.get(r) is None && o.get(d) is None);
    members_of_with_some(o, r, type_at(x, r));
    members_of_with_some(o, r, type_at(y, r));
    members_of_with_some(o.with_some(r, type_at(x, r)), d, type_at(x, d));
    members_of_with_some(o.with_some(r, type_at(y, r)), d, type_at(y, d));
    assert(result_compared(x).get(r) == type_at(x, r) && result_compared(y).get(r) == type_at(y, r));
    assert(result_compared(x).get(d) == type_at(x, d) && result_compared(y).get(d) == type_at(y, d));
}

proof fn receiver_is_seen(x: JsonModel, y: JsonModel)
    ensures
        (receiver_compared(x) == receiver_compared(y)) == same_type(receiver_of(x), receiver_of(y)),
{
    mark_is_taken_off(receiver_of(x), receiver_of(y));
    assert(receiver_compared(x) == type_normalized(receiver_of(x)));
    assert(receiver_compared(y) == type_normalized(receiver_of(y)));
}

/// What each parameter says of whether it may be null, where there is a list of them.
spec fn marks_of(x: JsonModel) -> Option<JsonModel> {
    match x.get("parameterTypes"@) {
        Some(JsonModel::Arr(p)) => Some(
            JsonModel::Arr(Seq::new(p.len(), |i: int| value_at(p[i], "nullable"@))),
        ),
        _ => None,
    }
}

/// What the receiver says of whether it may be null, where there is one.
spec fn receiver_mark(x: JsonModel) -> Option<JsonModel> {
    match x.get("receiverType"@) {
        Some(r) => Some(value_at(r, "nullable"@)),
        None => None,
    }
}

proof fn nullability_has_its_parts(x: JsonModel)
    ensures
        nullability_compared(x) == JsonModel::object().with_some(
            "returnNullable"@,
            x.get("returnNullable"@),
        ).with_some("declaredNullable"@, x.get("declaredNullable"@)).with_some(
            "parameterNullability"@,
            marks_of(x),
        ).with_some("receiverNullable"@, receiver_mark(x)),
        nullability_compared(x).get("returnNullable"@) == x.get("returnNullable"@),
        nullability_compared(x).get("declaredNullable"@) == x.get("declaredNullable"@),
        nullability_compared(x).get("parameterNullability"@) == marks_of(x),
        nullability_compared(x).get("receiverNullable"@) == receiver_mark(x),
{
    null_keys_differ();
    let o = JsonModel::object();
    let (k1, k2, k3, k4) = (
        "returnNullable"@,
        "declaredNullable"@,
        "parameterNullability"@,
        "receiverNullable"@,
    );
    assert(o.get(k1) is None && o.get(k2) is None && o.get(k3) is None && o.get(k4) is None);
    if let Some(JsonModel::Arr(p)) = x.get("parameterTypes"@) {
        assert(Seq::new(p.len(), |i: int| value_at(p[i], "nullable"@)) =~= Seq::new(
            p.len(),
            |i: int| crate::thread_change_set::field_of(p[i], "nullable"@),
        ));
    }
    let o1 = o.with_some(k1, x.get(k1));
    let o2 = o1.with_some(k2, x.get(k2));
    let o3 = o2.with_some(k3, marks_of(x));
    members_of_with_some(o, k1, x.get(k1));
    members_of_with_some(o1, k2, x.get(k2));
    members_of_with_some(o2, k3, marks_of(x));
    members_of_with_some(o3, k4, receiver_mark(x));
}

proof fn nullability_is_seen(x: JsonModel, y: JsonModel)
    ensures
        (nullability_compared(x) == nullability_compared(y)) == same_nullability(x, y),
{
    nullability_has_its_parts(x);
    nullability_has_its_parts(y);
    if let Some(JsonModel::Arr(p)) = x.get("parameterTypes"@) {
        if let Some(JsonModel::Arr(q)) = y.get("parameterTypes"@) {
            let u = marks_of(x)->0->Arr_0;
            let v = marks_of(y)->0->Arr_0;
            assert forall|i: int| 0 <= i < p.len() implies #[trigger] u[i] == value_at(
                p[i],
                "nullable"@,
            ) by {}
            assert forall|i: int| 0 <= i < q.len() implies #[trigger] v[i] == value_at(
                q[i],
                "nullable"@,
            ) by {}
            if u == v {
                assert(u.len() == p.len() && v.len() == q.len());
                assert forall|i: int| 0 <= i < p.len() implies value_at(p[i], "nullable"@)
                    == value_at(q[i], "nullable"@) by {
                    assert(u[i] == value_at(p[i], "nullable"@));
                    assert(v[i] == value_at(q[i], "nullable"@));
                }
            }
            if same_nullability(x, y) {
                assert forall|i: int| 0 <= i < u.len() implies u[i] == v[i] by {
                    assert(value_at(p[i], "nullable"@) == value_at(q[i], "nullable"@));
                }
                assert(u =~= v);
            }
        }
    }
}

proof fn bound_is_seen(p: JsonModel, q: JsonModel)
    ensures
        (bound_compared(p) == bound_compared(q)) == (same_at(p, q, "index"@) && same_at(
            p,
            q,
            "bounds"@,
        )),
{
    part_keys_differ();
    let o = JsonModel::object();
    let (i, b) = ("index"@, "bounds"@);
    assert(o.get(i) is None && o.get(b) is None);
    members_of_with_some(o, i, p.get(i));
    members_of_with_some(o, i, q.get(i));
    members_of_with_some(o.with_some(i, p.get(i)), b, p.get(b));
    members_of_with_some(o.with_some(i, q.get(i)), b, q.get(b));
    assert(bound_compared(p).get(i) == p.get(i) && bound_compared(q).get(i) == q.get(i));
    assert(bound_compared(p).get(b) == p.get(b) && bound_compared(q).get(b) == q.get(b));
}

proof fn bounds_are_seen(x: JsonModel, y: JsonModel)
    ensures
        (bounds_compared(x) == bounds_compared(y)) == same_bounds(x, y),
{
    let p = list_at(x, "typeParameters"@);
    let q = list_at(y, "typeParameters"@);
    let u = bounds_compared(x)->Arr_0;
    let v = bounds_compared(y)->Arr_0;
    assert(u.len() == p.len() && v.len() == q.len());
    assert forall|i: int| 0 <= i < p.len() && 0 <= i < q.len() implies (#[trigger] u[i] == v[i])
        == (same_at(p[i], q[i], "index"@) && same_at(p[i], q[i], "bounds"@)) by {
        bound_is_seen(p[i], q[i]);
    }
    if u == v {
        assert forall|i: int| 0 <= i < p.len() implies same_at(p[i], q[i], "index"@) && same_at(
            p[i],
            q[i],
            "bounds"@,
        ) by {
            assert(u[i] == v[i]);
        }
    }
    if same_bounds(x, y) {
        assert forall|i: int| 0 <= i < u.len() implies u[i] == v[i] by {
            assert(same_at(p[i], q[i], "index"@) && same_at(p[i], q[i], "bounds"@));
        }
        assert(u =~= v);
    }
}

proof fn visibility_is_seen(x: JsonModel, y: JsonModel)
    ensures
        (visibility_compared(x) == visibility_compared(y)) == (same_at(x, y, "visibility"@)
            && same_at(x, y, "effectiveVisibility"@) && same_at(x, y, "exportBoundary"@)),
{
    sight_keys_differ();
    let o = JsonModel::object();
    let (v, e, b) = ("visibility"@, "effectiveVisibility"@, "exportBoundary"@);
    assert(o.get(v) is None && o.get(e) is None && o.get(b) is None);
    let x1 = o.with_some(v, x.get(v));
    let y1 = o.with_some(v, y.get(v));
    members_of_with_some(o, v, x.get(v));
    members_of_with_some(o, v, y.get(v));
    members_of_with_some(x1, e, x.get(e));
    members_of_with_some(y1, e, y.get(e));
    members_of_with_some(x1.with_some(e, x.get(e)), b, x.get(b));
    members_of_with_some(y1.with_some(e, y.get(e)), b, y.get(b));
    assert(visibility_compared(x).get(v) == x.get(v) && visibility_compared(y).get(v) == y.get(v));
    assert(visibility_compared(x).get(e) == x.get(e) && visibility_compared(y).get(e) == y.get(e));
    assert(visibility_compared(x).get(b) == x.get(b) && visibility_compared(y).get(b) == y.get(b));
}

/// The value of a key among the first `n` members.
spec fn among_first(m: Members, n: nat, key: Seq<char>) -> Option<JsonModel> {
    member(m.take(n as int), key)
}

proof fn last_member(m: Members, n: nat, key: Seq<char>)
    requires
        ordered(m),
        1 <= n <= m.len(),
    ensures
        among_first(m, n, key) == if m[n - 1].0 == key {
            Some(m[n - 1].1)
        } else {
            among_first(m, (n - 1) as nat, key)
        },
    decreases n,
{
    let t = m.take(n as int);
    if n == 1 {
        assert(member(t.drop_first(), key) is None);
        assert(m.take(0).len() == 0);
        assert(t[0] == m[0]);
    } else {
        let rest = m.drop_first();
        assert forall|i: int, j: int| 0 <= i < j < rest.len() implies text_less(
            #[trigger] rest[i].0,
            #[trigger] rest[j].0,
        ) by {
            assert(rest[i] == m[i + 1] && rest[j] == m[j + 1]);
        }
        last_member(rest, (n - 1) as nat, key);
        assert(t.drop_first() =~= rest.take(n - 1));
        let w = m.take(n - 1);
        assert(w.drop_first() =~= rest.take(n - 2));
        assert(t[0] == m[0] && w[0] == m[0] && w.len() == n - 1);
        assert(member(t, key) == if m[0].0 == key { Some(m[0].1) } else { member(rest.take(n - 1), key) });
        assert(member(w, key) == if m[0].0 == key { Some(m[0].1) } else { member(rest.take(n - 2), key) });
        assert(text_less(m[0].0, m[n - 1].0));
        text_less_irreflexive(m[0].0);
        assert(rest[n - 2] == m[n - 1]);
    }
}

proof fn remaining_members(m: Members, n: nat)
    requires
        ordered(m),
        n <= m.len(),
    ensures
        remaining_parts(m, n) is Obj,
        ordered(remaining_parts(m, n)->Obj_0),
        forall|key: Seq<char>| #[trigger]
            remaining_parts(m, n).get(key) == if has_own_code(key) {
                None
            } else {
                among_first(m, n, key)
            },
    decreases n,
{
    if n == 0 {
        assert(m.take(0).len() == 0);
    } else {
        let before = remaining_parts(m, (n - 1) as nat);
        remaining_members(m, (n - 1) as nat);
        let (k, v) = m[n - 1];
        members_of_with(before, k, v);
        put_keeps_order(before->Obj_0, k, v);
        assert forall|key: Seq<char>| #[trigger]
            remaining_parts(m, n).get(key) == if has_own_code(key) {
                None
            } else {
                among_first(m, n, key)
            } by {
            last_member(m, n, key);
            assert(is_known_part(k) == has_own_code(k));
        }
    }
}

proof fn ordered_objects_agree(m: Members, n: Members)
    requires
        ordered(m),
        ordered(n),
        forall|key: Seq<char>| #[trigger] member(m, key) == member(n, key),
    ensures
        m == n,
    decreases m.len(),
{
    if m.len() == 0 {
        if n.len() > 0 {
            assert(member(n, n[0].0) is Some);
            assert(member(m, n[0].0) is None);
        }
        assert(m =~= n);
    } else {
        assert(member(m, m[0].0) == Some(m[0].1));
        assert(member(n, m[0].0) is Some);
        member_is_there(n, m[0].0);
        let i = choose|i: int| 0 <= i < n.len() && n[i].0 == m[0].0;
        assert(member(n, n[0].0) == Some(n[0].1));
        assert(member(m, n[0].0) is Some);
        member_is_there(m, n[0].0);
        let j = choose|j: int| 0 <= j < m.len() && m[j].0 == n[0].0;
        if i > 0 && j > 0 {
            assert(text_less(n[0].0, n[i].0));
            assert(text_less(m[0].0, m[j].0));
            text_less_transitive(m[0].0, n[0].0, m[0].0);
            text_less_irreflexive(m[0].0);
        }
        assert(m[0] == n[0]);
        let x = m.drop_first();
        let y = n.drop_first();
        assert forall|p: int, q: int| 0 <= p < q < x.len() implies text_less(
            #[trigger] x[p].0,
            #[trigger] x[q].0,
        ) by {
            assert(x[p] == m[p + 1] && x[q] == m[q + 1]);
        }
        assert forall|p: int, q: int| 0 <= p < q < y.len() implies text_less(
            #[trigger] y[p].0,
            #[trigger] y[q].0,
        ) by {
            assert(y[p] == n[p + 1] && y[q] == n[q + 1]);
        }
        assert forall|key: Seq<char>| #[trigger] member(x, key) == member(y, key) by {
            assert(member(m, key) == member(n, key));
            if key == m[0].0 {
                first_key_is_gone(m);
                first_key_is_gone(n);
            }
        }
        ordered_objects_agree(x, y);
        assert(m =~= seq![m[0]] + x);
        assert(n =~= seq![n[0]] + y);
    }
}

proof fn member_is_there(m: Members, key: Seq<char>)
    requires
        member(m, key) is Some,
    ensures
        exists|i: int| 0 <= i < m.len() && m[i].0 == key,
    decreases m.len(),
{
    if m[0].0 != key {
        member_is_there(m.drop_first(), key);
        let i = choose|i: int| 0 <= i < m.drop_first().len() && m.drop_first()[i].0 == key;
        assert(m[i + 1].0 == key);
    }
}

proof fn first_key_is_gone(m: Members)
    requires
        ordered(m),
        m.len() > 0,
    ensures
        member(m.drop_first(), m[0].0) is None,
{
    let rest = m.drop_first();
    if member(rest, m[0].0) is Some {
        member_is_there(rest, m[0].0);
        let i = choose|i: int| 0 <= i < rest.len() && rest[i].0 == m[0].0;
        assert(text_less(m[0].0, m[i + 1].0));
        text_less_irreflexive(m[0].0);
    }
}

proof fn kind_names_differ()
    ensures
        "CLASS"@ != "CONSTRUCTOR"@,
        "CLASS"@ != "FUNCTION"@,
        "CLASS"@ != "PROPERTY"@,
        "CLASS"@ != "ENUM_ENTRY"@,
        "CLASS"@ != "TYPE_ALIAS"@,
        "CONSTRUCTOR"@ != "FUNCTION"@,
        "CONSTRUCTOR"@ != "PROPERTY"@,
        "CONSTRUCTOR"@ != "ENUM_ENTRY"@,
        "CONSTRUCTOR"@ != "TYPE_ALIAS"@,
        "FUNCTION"@ != "PROPERTY"@,
        "FUNCTION"@ != "ENUM_ENTRY"@,
        "FUNCTION"@ != "TYPE_ALIAS"@,
        "PROPERTY"@ != "ENUM_ENTRY"@,
        "PROPERTY"@ != "TYPE_ALIAS"@,
        "ENUM_ENTRY"@ != "TYPE_ALIAS"@,
{
    reveal_strlit("CLASS");
    reveal_strlit("CONSTRUCTOR");
    reveal_strlit("FUNCTION");
    reveal_strlit("PROPERTY");
    reveal_strlit("ENUM_ENTRY");
    reveal_strlit("TYPE_ALIAS");
    assert("CLASS"@.len() == 5);
    assert("CONSTRUCTOR"@.len() == 11);
    assert("FUNCTION"@.len() == 8);
    assert("PROPERTY"@.len() == 8);
    assert("ENUM_ENTRY"@.len() == 10);
    assert("TYPE_ALIAS"@.len() == 10);
    assert("ENUM_ENTRY"@[0] == 'E');
    assert("FUNCTION"@[0] == 'F');
    assert("PROPERTY"@[0] == 'P');
    assert("TYPE_ALIAS"@[0] == 'T');
}

proof fn residue_has_its_parts(d: ChangeDeclarationEvidenceModel)
    requires
        has_ordered_shape(d),
    ensures
        residue_of(d) is Obj,
        ordered(residue_of(d)->Obj_0),
        forall|key: Seq<char>| #[trigger]
            residue_of(d).get(key) == if key == "declarationKind"@ {
                Some(JsonModel::Str(d.declaration_kind.name()))
            } else if key == "compilerCallableId"@ {
                Some(text_or_null(d.compiler_callable_id))
            } else if key == "compilerClassId"@ {
                Some(text_or_null(d.compiler_class_id))
            } else if has_own_code(key) {
                None
            } else {
                d.projected_shape.get(key)
            },
{
    beside_keys_differ();
    let rest = match d.projected_shape {
        JsonModel::Obj(members) => remaining_parts(members, members.len()),
        _ => JsonModel::object(),
    };
    if let JsonModel::Obj(m) = d.projected_shape {
        remaining_members(m, m.len());
        assert(m.take(m.len() as int) =~= m);
    }
    let k = <DeclarationKind as Record>::json(d.declaration_kind);
    let r1 = rest.with("declarationKind"@, k);
    let r2 = r1.with("compilerCallableId"@, text_or_null(d.compiler_callable_id));
    members_of_with(rest, "declarationKind"@, k);
    put_keeps_order(rest->Obj_0, "declarationKind"@, k);
    members_of_with(r1, "compilerCallableId"@, text_or_null(d.compiler_callable_id));
    put_keeps_order(r1->Obj_0, "compilerCallableId"@, text_or_null(d.compiler_callable_id));
    members_of_with(r2, "compilerClassId"@, text_or_null(d.compiler_class_id));
    put_keeps_order(r2->Obj_0, "compilerClassId"@, text_or_null(d.compiler_class_id));
}

proof fn rest_is_seen(b: ChangeDeclarationEvidenceModel, a: ChangeDeclarationEvidenceModel)
    requires
        has_ordered_shape(b),
        has_ordered_shape(a),
    ensures
        (residue_of(b) == residue_of(a)) == same_rest(b, a),
{
    residue_has_its_parts(b);
    residue_has_its_parts(a);
    kind_names_differ();
    beside_keys_differ();
    let x = residue_of(b);
    let y = residue_of(a);
    if x == y {
        assert(x.get("declarationKind"@) == y.get("declarationKind"@));
        assert(x.get("compilerCallableId"@) == y.get("compilerCallableId"@));
        assert(x.get("compilerClassId"@) == y.get("compilerClassId"@));
        assert forall|key: Seq<char>|
            !has_own_code(key) && !is_said_beside(key) implies #[trigger] b.projected_shape.get(key)
            == a.projected_shape.get(key) by {
            assert(x.get(key) == y.get(key));
        }
    }
    if same_rest(b, a) {
        assert forall|key: Seq<char>| #[trigger] member(x->Obj_0, key) == member(y->Obj_0, key) by {
            assert(x.get(key) == y.get(key));
        }
        ordered_objects_agree(x->Obj_0, y->Obj_0);
    }
}

/// Whether some observations, behind those that were there, are what two declarations differ
/// in, of the codes before one, each code once.
spec fn sees_up_to(
    before: Seq<KotlinChangeObservationModel>,
    after: Seq<KotlinChangeObservationModel>,
    side: ImpactSide,
    b: ChangeDeclarationEvidenceModel,
    a: ChangeDeclarationEvidenceModel,
    n: int,
) -> bool {
    &&& before.is_prefix_of(after)
    &&& forall|i: int|
        before.len() <= i < after.len() ==> is_of_pair(#[trigger] after[i], side, b, a)
            && after[i].code.rank() < n
    &&& forall|i: int, j: int|
        before.len() <= i < j < after.len() ==> (#[trigger] after[i]).code != (
        #[trigger] after[j]).code
    &&& forall|code: KotlinChangeCode|
        #[trigger] differ_in(code, b, a) && code.rank() < n ==> observes_behind(
            after,
            before.len() as int,
            code,
        )
}

/// Whether an observation is one of a pair of declarations that differ in its code.
pub open spec fn is_of_pair(
    o: KotlinChangeObservationModel,
    side: ImpactSide,
    b: ChangeDeclarationEvidenceModel,
    a: ChangeDeclarationEvidenceModel,
) -> bool {
    o.side == side && o.before == seq![b] && o.after == seq![a] && differ_in(o.code, b, a)
}

/// Whether a code is observed at a place or behind it.
pub open spec fn observes_behind(
    observations: Seq<KotlinChangeObservationModel>,
    n: int,
    code: KotlinChangeCode,
) -> bool {
    exists|i: int| n <= i < observations.len() && (#[trigger] observations[i]).code == code
}

proof fn one_observation(
    code: KotlinChangeCode,
    side: ImpactSide,
    b: ChangeDeclarationEvidenceModel,
    a: ChangeDeclarationEvidenceModel,
)
    ensures
        observed(code, side, seq![b], seq![a]).code == code,
        observed(code, side, seq![b], seq![a]).side == side,
        observed(code, side, seq![b], seq![a]).before == seq![b],
        observed(code, side, seq![b], seq![a]).after == seq![a],
{
    reveal(observed);
    assert(order::sorted::<ChangeDeclarationEvidence>(seq![b]) =~= seq![b]) by {
        assert(seq![b].drop_last().len() == 0);
        assert(order::sorted::<ChangeDeclarationEvidence>(seq![b].drop_last()).len() == 0);
    }
    assert(order::sorted::<ChangeDeclarationEvidence>(seq![a]) =~= seq![a]) by {
        assert(seq![a].drop_last().len() == 0);
        assert(order::sorted::<ChangeDeclarationEvidence>(seq![a].drop_last()).len() == 0);
    }
}

proof fn ranks_tell_codes_apart(c: KotlinChangeCode, d: KotlinChangeCode)
    ensures
        c.rank() == d.rank() ==> c == d,
{
}

proof fn one_part_is_seen(
    start: Seq<KotlinChangeObservationModel>,
    before: Seq<KotlinChangeObservationModel>,
    code: KotlinChangeCode,
    side: ImpactSide,
    b: ChangeDeclarationEvidenceModel,
    a: ChangeDeclarationEvidenceModel,
    p: JsonModel,
    q: JsonModel,
)
    requires
        sees_up_to(start, before, side, b, a, code.rank() as int),
        (p != q) == differ_in(code, b, a),
    ensures
        sees_up_to(
            start,
            part_compared(before, code, side, b, a, p, q),
            side,
            b,
            a,
            code.rank() + 1,
        ),
{
    one_observation(code, side, b, a);
    let after = part_compared(before, code, side, b, a, p, q);
    if p != q {
        assert(after == before.push(observed(code, side, seq![b], seq![a])));
        assert(after.last().code == code);
        assert(start.is_prefix_of(after)) by {
            assert(start =~= after.take(start.len() as int)) by {
                assert(start == before.take(start.len() as int));
            }
        }
    }
    assert forall|c: KotlinChangeCode|
        #[trigger] differ_in(c, b, a) && c.rank() < code.rank() + 1 implies observes_behind(
        after,
        start.len() as int,
        c,
    ) by {
        ranks_tell_codes_apart(c, code);
        if c == code {
            assert(after[after.len() - 1].code == c);
        } else {
            assert(observes_behind(before, start.len() as int, c));
            let i = choose|i: int|
                start.len() <= i < before.len() && (#[trigger] before[i]).code == c;
            assert(after[i].code == c);
        }
    }
    assert forall|i: int|
        start.len() <= i < after.len() implies is_of_pair(#[trigger] after[i], side, b, a)
        && after[i].code.rank() < code.rank() + 1 by {
        if i < before.len() {
            assert(after[i] == before[i]);
        }
    }
    assert forall|i: int, j: int| start.len() <= i < j < after.len() implies (
    #[trigger] after[i]).code != (#[trigger] after[j]).code by {
        assert(after[i] == before[i]);
        if j < before.len() {
            assert(after[j] == before[j]);
        }
    }
}

/// Comparing two declarations observes every code in which they differ, once, of this pair
/// and on this side, and no other; and it leaves to be verified just what has no code.
pub proof fn pairs_are_seen_through(
    c: Compared,
    side: ImpactSide,
    b: ChangeDeclarationEvidenceModel,
    a: ChangeDeclarationEvidenceModel,
)
    requires
        has_ordered_shape(b),
        has_ordered_shape(a),
    ensures
        ({
            let r = pair_compared(c, side, b, a);
            let n = c.observations.len() as int;
            &&& c.observations.is_prefix_of(r.observations)
            &&& forall|i: int|
                n <= i < r.observations.len() ==> is_of_pair(
                    #[trigger] r.observations[i],
                    side,
                    b,
                    a,
                )
            &&& forall|i: int, j: int|
                n <= i < j < r.observations.len() ==> (#[trigger] r.observations[i]).code != (
                #[trigger] r.observations[j]).code
            &&& forall|code: KotlinChangeCode| #[trigger]
                differ_in(code, b, a) ==> observes_behind(r.observations, n, code)
            &&& r.obligations == if same_rest(b, a) {
                c.obligations
            } else {
                c.obligations.push(
                    ChangeObligationDetailModel::Comparison {
                        phase: ChangeObligationPhase::Comparison,
                        side,
                        code: ComparisonObligationCode::VerifyUnsupportedComparison,
                        before_finding_ids: seq![b.finding_id],
                        after_finding_ids: seq![a.finding_id],
                    },
                )
            }
        }),
{
    reveal(pair_compared);
    reveal(parts_compared);
    let x = b.projected_shape;
    let y = a.projected_shape;
    let s = c.observations;
    descriptors_are_seen(b, a);
    parameters_are_seen(x, y);
    result_is_seen(x, y);
    receiver_is_seen(x, y);
    nullability_is_seen(x, y);
    bounds_are_seen(x, y);
    visibility_is_seen(x, y);
    rest_is_seen(b, a);
    assert(sees_up_to(s, s, side, b, a, 3)) by {
        assert(s =~= s.take(s.len() as int));
    }
    let k1 = KotlinChangeCode::KcdJvmDescriptorChanged;
    let s1 = part_compared(s, k1, side, b, a, descriptor_of(b), descriptor_of(a));
    one_part_is_seen(s, s, k1, side, b, a, descriptor_of(b), descriptor_of(a));
    let k2 = KotlinChangeCode::KcdParameterTypesChanged;
    let s2 = part_compared(s1, k2, side, b, a, parameters_compared(x), parameters_compared(y));
    one_part_is_seen(s, s1, k2, side, b, a, parameters_compared(x), parameters_compared(y));
    let k3 = KotlinChangeCode::KcdReturnTypeChanged;
    let s3 = part_compared(s2, k3, side, b, a, result_compared(x), result_compared(y));
    one_part_is_seen(s, s2, k3, side, b, a, result_compared(x), result_compared(y));
    let k4 = KotlinChangeCode::KcdReceiverTypeChanged;
    let s4 = part_compared(s3, k4, side, b, a, receiver_compared(x), receiver_compared(y));
    one_part_is_seen(s, s3, k4, side, b, a, receiver_compared(x), receiver_compared(y));
    let k5 = KotlinChangeCode::KcdNullabilityChanged;
    let s5 = part_compared(s4, k5, side, b, a, nullability_compared(x), nullability_compared(y));
    one_part_is_seen(s, s4, k5, side, b, a, nullability_compared(x), nullability_compared(y));
    let k6 = KotlinChangeCode::KcdTypeParameterBoundsChanged;
    let s6 = part_compared(s5, k6, side, b, a, bounds_compared(x), bounds_compared(y));
    one_part_is_seen(s, s5, k6, side, b, a, bounds_compared(x), bounds_compared(y));
    let k7 = KotlinChangeCode::KcdVisibilityChanged;
    let s7 = part_compared(s6, k7, side, b, a, visibility_compared(x), visibility_compared(y));
    one_part_is_seen(s, s6, k7, side, b, a, visibility_compared(x), visibility_compared(y));
    let k8 = KotlinChangeCode::KcdModalityChanged;
    let s8 = part_compared(s7, k8, side, b, a, value_at(x, "modality"@), value_at(y, "modality"@));
    one_part_is_seen(s, s7, k8, side, b, a, value_at(x, "modality"@), value_at(y, "modality"@));
    let k9 = KotlinChangeCode::KcdOverrideStatusChanged;
    let s9 = part_compared(s8, k9, side, b, a, value_at(x, "isOverride"@), value_at(y, "isOverride"@));
    one_part_is_seen(s, s8, k9, side, b, a, value_at(x, "isOverride"@), value_at(y, "isOverride"@));
    let k10 = KotlinChangeCode::KcdUnsupportedComparison;
    let s10 = part_compared(s9, k10, side, b, a, residue_of(b), residue_of(a));
    one_part_is_seen(s, s9, k10, side, b, a, residue_of(b), residue_of(a));
    assert(pair_compared(c, side, b, a).observations == s10);
}

/// Where comparing two declarations observes nothing, all their parts are the same, those
/// inside each parameter included.
pub proof fn unobserved_pairs_are_the_same(
    c: Compared,
    side: ImpactSide,
    b: ChangeDeclarationEvidenceModel,
    a: ChangeDeclarationEvidenceModel,
)
    requires
        has_ordered_shape(b),
        has_ordered_shape(a),
    ensures
        pair_compared(c, side, b, a).observations == c.observations <==> {
            let x = b.projected_shape;
            let y = a.projected_shape;
            &&& same_descriptor(b, a)
            &&& same_parameters(x, y)
            &&& same_result(x, y)
            &&& same_type(receiver_of(x), receiver_of(y))
            &&& same_nullability(x, y)
            &&& same_bounds(x, y)
            &&& same_at(x, y, "visibility"@)
            &&& same_at(x, y, "effectiveVisibility"@)
            &&& same_at(x, y, "exportBoundary"@)
            &&& value_at(x, "modality"@) == value_at(y, "modality"@)
            &&& value_at(x, "isOverride"@) == value_at(y, "isOverride"@)
            &&& same_rest(b, a)
        },
{
    pairs_are_seen_through(c, side, b, a);
    let r = pair_compared(c, side, b, a);
    let n = c.observations.len() as int;
    if r.observations == c.observations {
        assert forall|code: KotlinChangeCode| !#[trigger] differ_in(code, b, a) by {
            if differ_in(code, b, a) {
                assert(observes_behind(r.observations, n, code));
            }
        }
        assert(!differ_in(KotlinChangeCode::KcdJvmDescriptorChanged, b, a));
        assert(!differ_in(KotlinChangeCode::KcdParameterTypesChanged, b, a));
        assert(!differ_in(KotlinChangeCode::KcdReturnTypeChanged, b, a));
        assert(!differ_in(KotlinChangeCode::KcdReceiverTypeChanged, b, a));
        assert(!differ_in(KotlinChangeCode::KcdNullabilityChanged, b, a));
        assert(!differ_in(KotlinChangeCode::KcdTypeParameterBoundsChanged, b, a));
        assert(!differ_in(KotlinChangeCode::KcdVisibilityChanged, b, a));
        assert(!differ_in(KotlinChangeCode::KcdModalityChanged, b, a));
        assert(!differ_in(KotlinChangeCode::KcdOverrideStatusChanged, b, a));
        assert(!differ_in(KotlinChangeCode::KcdUnsupportedComparison, b, a));
    } else {
        if r.observations.len() == n {
            assert(r.observations =~= c.observations) by {
                assert(c.observations == r.observations.take(n));
            }
        }
        assert(is_of_pair(r.observations[n], side, b, a));
    }
}

} // verus!
