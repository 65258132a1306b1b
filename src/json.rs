use vstd::prelude::*;

use crate::text::text_eq;

verus! {

broadcast use vstd::std_specs::vec::axiom_vec_index_decreases;

} // verus!

verus! {

/// A structured JSON value: the generic value type that open schema
/// attributes carry. A number keeps its literal text.
#[derive(Debug, PartialEq)]
pub enum Json {
    Null,
    Bool(bool),
    Number(String),
    Str(String),
    Array(Vec<Json>),
    Object(Vec<Member>),
}

/// One key/value entry of a JSON object.
#[derive(Debug, PartialEq)]
pub struct Member {
    pub key: String,
    pub value: Json,
}

/// The mathematical model of a [`Json`] value.
pub enum JsonModel {
    Null,
    Bool(bool),
    Number(Seq<char>),
    Str(Seq<char>),
    Array(Seq<JsonModel>),
    Object(Seq<(Seq<char>, JsonModel)>),
}

impl View for Json {
    type V = JsonModel;

    open spec fn view(&self) -> JsonModel
        decreases self,
    {
        match self {
            Json::Null => JsonModel::Null,
            Json::Bool(b) => JsonModel::Bool(*b),
            Json::Number(t) => JsonModel::Number(t@),
            Json::Str(s) => JsonModel::Str(s@),
            Json::Array(v) => JsonModel::Array(
                Seq::new(v@.len(), |i: int| if 0 <= i < v@.len() { v@[i].view() } else { JsonModel::Null }),
            ),
            Json::Object(v) => JsonModel::Object(
                Seq::new(v@.len(), |i: int| (v@[i].key@, if 0 <= i < v@.len() { v@[i].value.view() } else { JsonModel::Null })),
            ),
        }
    }
}

/// The model of an object's entries.
pub open spec fn entries_model(v: Vec<Member>) -> Seq<(Seq<char>, JsonModel)> {
    Seq::new(v@.len(), |i: int| (v@[i].key@, v@[i].value@))
}

/// The model of an object is the model of its entries.
pub proof fn lemma_object_view(v: Vec<Member>)
    ensures
        Json::Object(v)@ == JsonModel::Object(entries_model(v)),
{
    let j = Json::Object(v);
    assert(j@ is Object);
    let m = j@->Object_0;
    assert(m.len() == v@.len());
    assert forall|i: int| 0 <= i < v@.len() implies m[i] == entries_model(v)[i] by {
        assert(m[i].0 == v@[i].key@);
        assert(m[i].1 == v@[i].value@);
    }
    assert(m =~= entries_model(v));
}

impl Json {
    /// An independent copy with the same model.
    #[verifier::loop_isolation(false)]
    pub fn deep_copy(&self) -> (r: Json)
        ensures
            r@ == self@,
        decreases self,
    {
        match self {
            Json::Null => Json::Null,
            Json::Bool(b) => Json::Bool(*b),
            Json::Number(t) => Json::Number(t.clone()),
            Json::Str(s) => Json::Str(s.clone()),
            Json::Array(v) => {
                let mut out: Vec<Json> = Vec::new();
                let mut i: usize = 0;
                while i < v.len()
                    invariant
                        i <= v@.len(),
                        out@.len() == i,
                        forall|k: int| 0 <= k < i ==> (#[trigger] out@[k])@ == v@[k]@,
                    decreases v@.len() - i,
                {
                    proof {
                        assert(decreases_to!(v => v[i as int]));
                        assert(decreases_to!(*self => v[i as int]));
                    }
                    let c = v[i].deep_copy();
                    out.push(c);
                    i = i + 1;
                }
                let r = Json::Array(out);
                proof {
                    assert(r@->Array_0 =~= self@->Array_0);
                }
                r
            },
            Json::Object(v) => {
                let mut out: Vec<Member> = Vec::new();
                let mut i: usize = 0;
                while i < v.len()
                    invariant
                        i <= v@.len(),
                        out@.len() == i,
                        forall|k: int| 0 <= k < i ==> (#[trigger] out@[k]).key@ == v@[k].key@ && out@[k].value@ == v@[k].value@,
                    decreases v@.len() - i,
                {
                    let key = v[i].key.clone();
                    proof {
                        assert(decreases_to!(v => v[i as int]));
                    }
                    let value = v[i].value.deep_copy();
                    out.push(Member { key, value });
                    i = i + 1;
                }
                proof {
                    lemma_object_view(*v);
                    lemma_object_view(out);
                    assert(entries_model(out) =~= entries_model(*v));
                }
                let r = Json::Object(out);
                r
            },
        }
    }
}

/// Whether two values have the same model.
#[verifier::loop_isolation(false)]
pub fn json_eq(a: &Json, b: &Json) -> (r: bool)
    ensures
        r == (a@ == b@),
    decreases a,
{
    match (a, b) {
        (Json::Null, Json::Null) => true,
        (Json::Bool(x), Json::Bool(y)) => *x == *y,
        (Json::Number(x), Json::Number(y)) => text_eq(x.as_str(), y.as_str()),
        (Json::Str(x), Json::Str(y)) => text_eq(x.as_str(), y.as_str()),
        (Json::Array(x), Json::Array(y)) => {
            if x.len() != y.len() {
                assert(a@->Array_0.len() != b@->Array_0.len());
                return false;
            }
            let mut i: usize = 0;
            while i < x.len()
                invariant
                    i <= x@.len(),
                    x@.len() == y@.len(),
                    forall|q: int| 0 <= q < i ==> (#[trigger] x@[q])@ == y@[q]@,
                decreases x@.len() - i,
            {
                proof {
                    assert(decreases_to!(x => x[i as int]));
                }
                if !json_eq(&x[i], &y[i]) {
                    assert(a@->Array_0[i as int] != b@->Array_0[i as int]);
                    return false;
                }
                i = i + 1;
            }
            assert(a@->Array_0 =~= b@->Array_0);
            true
        },
        (Json::Object(x), Json::Object(y)) => {
            proof {
                lemma_object_view(*x);
                lemma_object_view(*y);
            }
            if x.len() != y.len() {
                assert(entries_model(*x).len() != entries_model(*y).len());
                return false;
            }
            let mut i: usize = 0;
            while i < x.len()
                invariant
                    i <= x@.len(),
                    x@.len() == y@.len(),
                    forall|q: int| 0 <= q < i ==> (#[trigger] x@[q]).key@ == y@[q].key@ && x@[q].value@ == y@[q].value@,
                decreases x@.len() - i,
            {
                proof {
                    assert(decreases_to!(x => x[i as int]));
                }
                if !text_eq(x[i].key.as_str(), y[i].key.as_str()) || !json_eq(&x[i].value, &y[i].value) {
                    assert(entries_model(*x)[i as int] != entries_model(*y)[i as int]);
                    return false;
                }
                i = i + 1;
            }
            assert(entries_model(*x) =~= entries_model(*y));
            true
        },
        _ => false,
    }
}

} // verus!
