//! Records: values that can be copied, compared and written as JSON.

use vstd::prelude::*;
use vstd::string::*;

use crate::json::{
    json_model, member_models, model_of_array, model_of_object, models, Json, JsonModel,
};
use crate::text::same_text;

verus! {

/// A value with a model, which copies and comparisons go by, and with a JSON
/// form.
pub trait Record: DeepView + Sized {
    /// The JSON form of a model.
    spec fn json(v: <Self as DeepView>::V) -> JsonModel;

    /// Another value with the same model.
    fn copied(&self) -> (r: Self)
        ensures
            r.deep_view() == self.deep_view(),
    ;

    /// Whether two values have one model.
    fn same_as(&self, other: &Self) -> (r: bool)
        ensures
            r == (self.deep_view() == other.deep_view()),
    ;

    /// The JSON form.
    fn to_json(&self) -> (r: Json)
        ensures
            r.deep_view() == Self::json(self.deep_view()),
    ;
}

impl Record for String {
    open spec fn json(v: Seq<char>) -> JsonModel {
        JsonModel::Str(v)
    }

    fn copied(&self) -> (r: String) {
        self.clone()
    }

    fn same_as(&self, other: &String) -> (r: bool) {
        same_text(self.as_str(), other.as_str())
    }

    fn to_json(&self) -> (r: Json) {
        Json::Str(self.clone())
    }
}

impl Record for bool {
    open spec fn json(v: bool) -> JsonModel {
        JsonModel::Bool(v)
    }

    fn copied(&self) -> (r: bool) {
        *self
    }

    fn same_as(&self, other: &bool) -> (r: bool) {
        *self == *other
    }

    fn to_json(&self) -> (r: Json) {
        Json::Bool(*self)
    }
}

impl Record for u64 {
    open spec fn json(v: u64) -> JsonModel {
        JsonModel::Uint(v)
    }

    fn copied(&self) -> (r: u64) {
        *self
    }

    fn same_as(&self, other: &u64) -> (r: bool) {
        *self == *other
    }

    fn to_json(&self) -> (r: Json) {
        Json::Uint(*self)
    }
}

impl Record for usize {
    open spec fn json(v: usize) -> JsonModel {
        JsonModel::Uint(v as u64)
    }

    fn copied(&self) -> (r: usize) {
        *self
    }

    fn same_as(&self, other: &usize) -> (r: bool) {
        *self == *other
    }

    fn to_json(&self) -> (r: Json) {
        Json::Uint(*self as u64)
    }
}

impl<T: Record> Record for Option<T> {
    open spec fn json(v: Option<<T as DeepView>::V>) -> JsonModel {
        match v {
            Some(x) => T::json(x),
            None => JsonModel::Null,
        }
    }

    fn copied(&self) -> (r: Option<T>) {
        match self {
            Some(x) => Some(x.copied()),
            None => None,
        }
    }

    fn same_as(&self, other: &Option<T>) -> (r: bool) {
        match self {
            Some(x) => match other {
                Some(y) => x.same_as(y),
                None => false,
            },
            None => match other {
                Some(_) => false,
                None => true,
            },
        }
    }

    fn to_json(&self) -> (r: Json) {
        match self {
            Some(x) => x.to_json(),
            None => Json::Null,
        }
    }
}

impl<T: Record> Record for Vec<T> {
    open spec fn json(v: Seq<<T as DeepView>::V>) -> JsonModel {
        JsonModel::Arr(Seq::new(v.len(), |i: int| T::json(v[i])))
    }

    fn copied(&self) -> (r: Vec<T>) {
        let mut r: Vec<T> = Vec::new();
        let mut i: usize = 0;
        while i < self.len()
            invariant
                i <= self.len(),
                r.len() == i,
                forall|k: int|
                    0 <= k < i ==> (#[trigger] r@[k]).deep_view() == self@[k].deep_view(),
            decreases self.len() - i,
        {
            r.push(self[i].copied());
            i = i + 1;
        }
        assert(r.deep_view() =~= self.deep_view());
        r
    }

    fn same_as(&self, other: &Vec<T>) -> (r: bool) {
        let ghost a = self.deep_view();
        let ghost b = other.deep_view();
        if self.len() != other.len() {
            assert(a.len() != b.len());
            return false;
        }
        let mut i: usize = 0;
        while i < self.len()
            invariant
                i <= self.len(),
                self.len() == other.len(),
                a == self.deep_view(),
                b == other.deep_view(),
                forall|k: int| 0 <= k < i ==> a[k] == b[k],
            decreases self.len() - i,
        {
            if !self[i].same_as(&other[i]) {
                assert(a[i as int] != b[i as int]);
                return false;
            }
            i = i + 1;
        }
        assert(a =~= b);
        true
    }

    fn to_json(&self) -> (r: Json) {
        let mut v: Vec<Json> = Vec::new();
        let mut i: usize = 0;
        while i < self.len()
            invariant
                i <= self.len(),
                v.len() == i,
                forall|k: int|
                    0 <= k < i ==> (#[trigger] v@[k]).deep_view() == T::json(self@[k].deep_view()),
            decreases self.len() - i,
        {
            v.push(self[i].to_json());
            i = i + 1;
        }
        proof {
            model_of_array(v);
            let d = self.deep_view();
            assert(models(v@) =~= Seq::new(d.len(), |i: int| T::json(d[i])));
        }
        Json::Arr(v)
    }
}

impl Record for Json {
    open spec fn json(v: JsonModel) -> JsonModel {
        v
    }

    fn copied(&self) -> (r: Json)
        decreases self,
    {
        match self {
            Json::Null => Json::Null,
            Json::Bool(b) => Json::Bool(*b),
            Json::Uint(n) => Json::Uint(*n),
            Json::Int(n) => Json::Int(*n),
            Json::Decimal(s) => Json::Decimal(s.clone()),
            Json::Str(s) => Json::Str(s.clone()),
            Json::Arr(v) => {
                let mut r: Vec<Json> = Vec::new();
                let mut i: usize = 0;
                while i < v.len()
                    invariant
                        i <= v.len(),
                        r.len() == i,
                        *self == Json::Arr(*v),
                        forall|k: int|
                            0 <= k < i ==> json_model(#[trigger] r@[k]) == json_model(v@[k]),
                    decreases v.len() - i,
                {
                    assert(decreases_to!(self => self->Arr_0));
                    r.push(v[i].copied());
                    i = i + 1;
                }
                proof {
                    model_of_array(r);
                    model_of_array(*v);
                    assert(models(r@) =~= models(v@));
                }
                Json::Arr(r)
            },
            Json::Obj(v) => {
                let mut r: Vec<(String, Json)> = Vec::new();
                let mut i: usize = 0;
                while i < v.len()
                    invariant
                        i <= v.len(),
                        r.len() == i,
                        *self == Json::Obj(*v),
                        forall|k: int|
                            0 <= k < i ==> (#[trigger] r@[k]).0@ == v@[k].0@ && json_model(r@[k].1)
                                == json_model(v@[k].1),
                    decreases v.len() - i,
                {
                    assert(decreases_to!(self => self->Obj_0));
                    r.push((v[i].0.clone(), v[i].1.copied()));
                    i = i + 1;
                }
                proof {
                    model_of_object(r);
                    model_of_object(*v);
                    assert(member_models(r@) =~= member_models(v@));
                }
                Json::Obj(r)
            },
        }
    }

    fn same_as(&self, other: &Json) -> (r: bool)
        decreases self,
    {
        match (self, other) {
            (Json::Null, Json::Null) => true,
            (Json::Bool(a), Json::Bool(b)) => *a == *b,
            (Json::Uint(a), Json::Uint(b)) => *a == *b,
            (Json::Int(a), Json::Int(b)) => *a == *b,
            (Json::Decimal(a), Json::Decimal(b)) => same_text(a.as_str(), b.as_str()),
            (Json::Str(a), Json::Str(b)) => same_text(a.as_str(), b.as_str()),
            (Json::Arr(v), Json::Arr(w)) => {
                proof {
                    model_of_array(*v);
                    model_of_array(*w);
                }
                if v.len() != w.len() {
                    assert(models(v@).len() != models(w@).len());
                    return false;
                }
                let mut i: usize = 0;
                while i < v.len()
                    invariant
                        i <= v.len(),
                        v.len() == w.len(),
                        *self == Json::Arr(*v),
                        json_model(*self) == JsonModel::Arr(models(v@)),
                        json_model(*other) == JsonModel::Arr(models(w@)),
                        forall|k: int| 0 <= k < i ==> models(v@)[k] == models(w@)[k],
                    decreases v.len() - i,
                {
                    assert(decreases_to!(self => self->Arr_0));
                    if !v[i].same_as(&w[i]) {
                        assert(models(v@)[i as int] != models(w@)[i as int]);
                        return false;
                    }
                    i = i + 1;
                }
                assert(models(v@) =~= models(w@));
                true
            },
            (Json::Obj(v), Json::Obj(w)) => {
                proof {
                    model_of_object(*v);
                    model_of_object(*w);
                }
                if v.len() != w.len() {
                    assert(member_models(v@).len() != member_models(w@).len());
                    return false;
                }
                let mut i: usize = 0;
                while i < v.len()
                    invariant
                        i <= v.len(),
                        v.len() == w.len(),
                        *self == Json::Obj(*v),
                        json_model(*self) == JsonModel::Obj(member_models(v@)),
                        json_model(*other) == JsonModel::Obj(member_models(w@)),
                        forall|k: int| 0 <= k < i ==> member_models(v@)[k] == member_models(w@)[k],
                    decreases v.len() - i,
                {
                    assert(decreases_to!(self => self->Obj_0));
                    if !same_text(v[i].0.as_str(), w[i].0.as_str()) || !v[i].1.same_as(&w[i].1) {
                        assert(member_models(v@)[i as int] != member_models(w@)[i as int]);
                        return false;
                    }
                    i = i + 1;
                }
                assert(member_models(v@) =~= member_models(w@));
                true
            },
            _ => false,
        }
    }

    fn to_json(&self) -> (r: Json) {
        self.copied()
    }
}

} // verus!
