//! A JSON value model. The protocol layer builds and inspects values of this
//! type, so the dispatcher's behaviour can be stated exactly; the application
//! shell converts between it and its wire representation.

use vstd::prelude::*;
use crate::strutil;

verus! {

/// A JSON document. Numbers outside `i64` are carried as their literal text.
#[derive(Debug, PartialEq)]
pub enum JsonValue {
    Null,
    Bool(bool),
    Int(i64),
    Num(String),
    Str(String),
    Arr(Vec<JsonValue>),
    Obj(Vec<(String, JsonValue)>),
}

/// Mathematical image of a `JsonValue`.
#[verifier::ext_equal]
pub ghost enum JsonVal {
    Null,
    Bool(bool),
    Int(i64),
    Num(Seq<char>),
    Str(Seq<char>),
    Arr(Seq<JsonVal>),
    Obj(Seq<(Seq<char>, JsonVal)>),
}

/// Mathematical image of a `JsonValue`, structure for structure.
pub open spec fn val_view(v: JsonValue) -> JsonVal
    decreases v,
{
    match v {
        JsonValue::Null => JsonVal::Null,
        JsonValue::Bool(b) => JsonVal::Bool(b),
        JsonValue::Int(n) => JsonVal::Int(n),
        JsonValue::Num(s) => JsonVal::Num(s@),
        JsonValue::Str(s) => JsonVal::Str(s@),
        JsonValue::Arr(items) => {
            proof {
                assert(decreases_to!(v => v->Arr_0));
                assert(decreases_to!(v->Arr_0 => v->Arr_0@));
            }
            JsonVal::Arr(vals_view(items@))
        },
        JsonValue::Obj(fields) => {
            proof {
                assert(decreases_to!(v => v->Obj_0));
                assert(decreases_to!(v->Obj_0 => v->Obj_0@));
            }
            JsonVal::Obj(fields_view(fields@))
        },
    }
}

/// Elementwise image of a sequence of values.
pub open spec fn vals_view(s: Seq<JsonValue>) -> Seq<JsonVal>
    decreases s,
{
    if s.len() == 0 {
        Seq::empty()
    } else {
        proof {
            assert(decreases_to!(s => s.drop_last())) by {
                vstd::seq::axiom_seq_len_decreases(s, s.drop_last());
            }
            assert(decreases_to!(s => s.last()));
        }
        vals_view(s.drop_last()).push(val_view(s.last()))
    }
}

/// Elementwise image of an object's field list.
pub open spec fn fields_view(s: Seq<(String, JsonValue)>) -> Seq<(Seq<char>, JsonVal)>
    decreases s,
{
    if s.len() == 0 {
        Seq::empty()
    } else {
        proof {
            assert(decreases_to!(s => s.drop_last())) by {
                vstd::seq::axiom_seq_len_decreases(s, s.drop_last());
            }
            assert(decreases_to!(s => s.last()));
            assert(decreases_to!(s.last() => s.last().1));
        }
        fields_view(s.drop_last()).push((s.last().0@, val_view(s.last().1)))
    }
}

/// `vals_view` maps the sequence pointwise.
pub proof fn lemma_vals_view(s: Seq<JsonValue>)
    ensures
        vals_view(s).len() == s.len(),
        forall|i: int| 0 <= i < s.len() ==> vals_view(s)[i] == val_view(s[i]),
    decreases s.len(),
{
    if s.len() > 0 {
        lemma_vals_view(s.drop_last());
    }
}

/// `fields_view` maps the sequence pointwise.
pub proof fn lemma_fields_view(s: Seq<(String, JsonValue)>)
    ensures
        fields_view(s).len() == s.len(),
        forall|i: int| 0 <= i < s.len() ==> fields_view(s)[i] == (s[i].0@, val_view(s[i].1)),
    decreases s.len(),
{
    if s.len() > 0 {
        lemma_fields_view(s.drop_last());
    }
}

/// Appending an element extends the image by its view.
pub proof fn lemma_vals_view_push(s: Seq<JsonValue>, v: JsonValue)
    ensures
        vals_view(s.push(v)) == vals_view(s).push(val_view(v)),
{
    assert(s.push(v).drop_last() =~= s);
    assert(s.push(v).last() == v);
}

/// Appending a field extends the image by its viewed pair.
pub proof fn lemma_fields_view_push(s: Seq<(String, JsonValue)>, k: String, v: JsonValue)
    ensures
        fields_view(s.push((k, v))) == fields_view(s).push((k@, val_view(v))),
{
    assert(s.push((k, v)).drop_last() =~= s);
    assert(s.push((k, v)).last() == (k, v));
}

impl View for JsonValue {
    type V = JsonVal;

    open spec fn view(&self) -> JsonVal {
        val_view(*self)
    }
}

/// A JSON string holding a copy of `s`.
pub fn jstr(s: &str) -> (r: JsonValue)
    ensures
        r@ == JsonVal::Str(s@),
{
    JsonValue::Str(s.to_owned())
}

/// An empty JSON object.
pub fn empty_object() -> (r: JsonValue)
    ensures
        r@ == JsonVal::Obj(Seq::empty()),
{
    JsonValue::Obj(Vec::new())
}

/// Deep copy with an identical view.
#[verifier::loop_isolation(false)]
fn clone_value(v: &JsonValue) -> (r: JsonValue)
    ensures
        r@ == v@,
    decreases v,
{
    match v {
        JsonValue::Null => JsonValue::Null,
        JsonValue::Bool(b) => JsonValue::Bool(*b),
        JsonValue::Int(n) => JsonValue::Int(*n),
        JsonValue::Num(s) => JsonValue::Num(s.clone()),
        JsonValue::Str(s) => JsonValue::Str(s.clone()),
        JsonValue::Arr(items) => {
            let n = items.len();
            let mut out: Vec<JsonValue> = Vec::new();
            let mut i: usize = 0;
            while i < n
                invariant
                    n == items@.len(),
                    i <= n,
                    out@.len() == i,
                    forall|j: int| 0 <= j < i ==> val_view(out@[j]) == val_view(items@[j]),
                decreases n - i,
            {
                proof {
                    assert(decreases_to!(*v => v->Arr_0));
                    assert(decreases_to!(v->Arr_0 => v->Arr_0@));
                    assert(decreases_to!(v->Arr_0@ => v->Arr_0@[i as int]));
                }
                out.push(clone_value(&items[i]));
                i = i + 1;
            }
            proof {
                lemma_vals_view(out@);
                lemma_vals_view(items@);
                assert(vals_view(out@) =~= vals_view(items@));
            }
            JsonValue::Arr(out)
        },
        JsonValue::Obj(fields) => {
            let n = fields.len();
            let mut out: Vec<(String, JsonValue)> = Vec::new();
            let mut i: usize = 0;
            while i < n
                invariant
                    n == fields@.len(),
                    i <= n,
                    out@.len() == i,
                    forall|j: int| 0 <= j < i ==> out@[j].0@ == fields@[j].0@ && val_view(
                        out@[j].1,
                    ) == val_view(fields@[j].1),
                decreases n - i,
            {
                proof {
                    assert(decreases_to!(*v => v->Obj_0));
                    assert(decreases_to!(v->Obj_0 => v->Obj_0@));
                    assert(decreases_to!(v->Obj_0@ => v->Obj_0@[i as int]));
                    assert(decreases_to!(v->Obj_0@[i as int] => v->Obj_0@[i as int].1));
                }
                let key = fields[i].0.clone();
                let val = clone_value(&fields[i].1);
                out.push((key, val));
                i = i + 1;
            }
            proof {
                lemma_fields_view(out@);
                lemma_fields_view(fields@);
                assert(fields_view(out@) =~= fields_view(fields@));
            }
            JsonValue::Obj(out)
        },
    }
}

impl Clone for JsonValue {
    fn clone(&self) -> (r: Self)
        ensures
            r@ == self@,
    {
        clone_value(self)
    }
}

/// First value bound to `key` in an object's field list.
pub open spec fn spec_fields_get(fields: Seq<(Seq<char>, JsonVal)>, key: Seq<char>) -> Option<
    JsonVal,
>
    decreases fields.len(),
{
    if fields.len() == 0 {
        None
    } else if fields.first().0 == key {
        Some(fields.first().1)
    } else {
        spec_fields_get(fields.drop_first(), key)
    }
}

/// Member lookup: the value bound to `key` when `v` is an object that binds
/// it, `None` otherwise.
pub open spec fn spec_get(v: JsonVal, key: Seq<char>) -> Option<JsonVal> {
    match v {
        JsonVal::Obj(fields) => spec_fields_get(fields, key),
        _ => None,
    }
}

impl JsonValue {
    /// Member lookup on an object; `None` on any other kind of value.
    #[verifier::loop_isolation(false)]
    pub fn get<'a>(&'a self, key: &str) -> (r: Option<&'a JsonValue>)
        ensures
            match r {
                Some(v) => spec_get(self@, key@) == Some(v@),
                None => spec_get(self@, key@) is None,
            },
    {
        match self {
            JsonValue::Obj(fields) => {
                let ghost fv = fields_view(fields@);
                proof {
                    lemma_fields_view(fields@);
                    assert(fv.skip(0) =~= fv);
                }
                let n = fields.len();
                let mut i: usize = 0;
                while i < n
                    invariant
                        n == fields@.len(),
                        i <= n,
                        fv == fields_view(fields@),
                        fv.len() == n,
                        forall|k: int| 0 <= k < n ==> fv[k] == (fields@[k].0@, val_view(
                            fields@[k].1,
                        )),
                        spec_fields_get(fv, key@) == spec_fields_get(fv.skip(i as int), key@),
                    decreases n - i,
                {
                    proof {
                        assert(fv.skip(i as int).first() == fv[i as int]);
                        assert(fv.skip(i as int).drop_first() =~= fv.skip(i + 1));
                    }
                    if strutil::str_eq(fields[i].0.as_str(), key) {
                        return Some(&fields[i].1);
                    }
                    i = i + 1;
                }
                proof {
                    assert(fv.skip(n as int) =~= Seq::empty());
                }
                None
            },
            _ => None,
        }
    }

    /// The string payload, when this value is a string.
    pub fn as_str(&self) -> (r: Option<&String>)
        ensures
            match r {
                Some(s) => self@ matches JsonVal::Str(t) && t == s@,
                None => !(self@ matches JsonVal::Str(_)),
            },
    {
        match self {
            JsonValue::Str(s) => Some(s),
            _ => None,
        }
    }

    /// Whether this value is an object.
    pub fn is_object(&self) -> (r: bool)
        ensures
            r == (self@ matches JsonVal::Obj(_)),
    {
        match self {
            JsonValue::Obj(_) => true,
            _ => false,
        }
    }

    /// Whether this value is an array.
    pub fn is_array(&self) -> (r: bool)
        ensures
            r == (self@ matches JsonVal::Arr(_)),
    {
        match self {
            JsonValue::Arr(_) => true,
            _ => false,
        }
    }
}

} // verus!
