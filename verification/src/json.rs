//! An untyped JSON object tree, as the policies consume it, together with
//! its mathematical view and the accessors the policies use to walk it.
//!
//! Numbers keep their JSON flavour: signed integers carry the values the
//! policies read; unsigned integers above `i64::MAX` and non-integral
//! numbers (held as IEEE 754 bit patterns) pass through unread.

use vstd::prelude::*;

verus! {

broadcast use vstd::std_specs::vec::axiom_vec_index_decreases;

/// The mathematical value of a JSON tree.
pub enum Json {
    Null,
    Bool(bool),
    Int(i64),
    Uint(u64),
    Float(u64),
    Str(Seq<char>),
    Arr(Seq<Json>),
    Obj(Seq<(Seq<char>, Json)>),
}

/// An untyped JSON value. Object fields keep their declared order.
pub enum JsonValue {
    Null,
    Bool(bool),
    Int(i64),
    Uint(u64),
    Float(u64),
    Str(String),
    Arr(Vec<JsonValue>),
    Obj(Vec<(String, JsonValue)>),
}

pub open spec fn jv_view(v: JsonValue) -> Json
    decreases v,
{
    match v {
        JsonValue::Null => Json::Null,
        JsonValue::Bool(b) => Json::Bool(b),
        JsonValue::Int(n) => Json::Int(n),
        JsonValue::Uint(n) => Json::Uint(n),
        JsonValue::Float(bits) => Json::Float(bits),
        JsonValue::Str(s) => Json::Str(s@),
        JsonValue::Arr(a) => Json::Arr(
            Seq::new(
                a@.len(),
                |i: int|
                    if 0 <= i < a@.len() {
                        jv_view(a@[i])
                    } else {
                        Json::Null
                    },
            ),
        ),
        JsonValue::Obj(f) => Json::Obj(
            Seq::new(
                f@.len(),
                |i: int|
                    if 0 <= i < f@.len() {
                        (f@[i].0@, jv_view(f@[i].1))
                    } else {
                        (Seq::empty(), Json::Null)
                    },
            ),
        ),
    }
}

impl View for JsonValue {
    type V = Json;

    open spec fn view(&self) -> Json {
        jv_view(*self)
    }
}

/// The views of a sequence of JSON values, element by element.
pub open spec fn views_of(s: Seq<JsonValue>) -> Seq<Json> {
    Seq::new(
        s.len(),
        |i: int|
            if 0 <= i < s.len() {
                jv_view(s[i])
            } else {
                Json::Null
            },
    )
}

/// The views of a sequence of object fields, element by element.
pub open spec fn views_of_fields(s: Seq<(String, JsonValue)>) -> Seq<(Seq<char>, Json)> {
    Seq::new(
        s.len(),
        |i: int|
            if 0 <= i < s.len() {
                (s[i].0@, jv_view(s[i].1))
            } else {
                (Seq::empty(), Json::Null)
            },
    )
}

/// First field of `fields` named `key`, if any.
pub open spec fn obj_lookup(fields: Seq<(Seq<char>, Json)>, key: Seq<char>) -> Option<Json>
    decreases fields.len(),
{
    if fields.len() == 0 {
        None
    } else if fields[0].0 == key {
        Some(fields[0].1)
    } else {
        obj_lookup(fields.drop_first(), key)
    }
}

/// Field `key` of `j`, when `j` is an object that has it.
pub open spec fn jv_get(j: Json, key: Seq<char>) -> Option<Json> {
    match j {
        Json::Obj(fields) => obj_lookup(fields, key),
        _ => None,
    }
}

proof fn lemma_obj_lookup_found(fields: Seq<(Seq<char>, Json)>, key: Seq<char>, i: int)
    requires
        0 <= i < fields.len(),
        fields[i].0 == key,
        forall|j: int| 0 <= j < i ==> fields[j].0 != key,
    ensures
        obj_lookup(fields, key) == Some(fields[i].1),
    decreases i,
{
    if i > 0 {
        lemma_obj_lookup_found(fields.drop_first(), key, i - 1);
    }
}

proof fn lemma_obj_lookup_none(fields: Seq<(Seq<char>, Json)>, key: Seq<char>)
    requires
        forall|j: int| 0 <= j < fields.len() ==> fields[j].0 != key,
    ensures
        obj_lookup(fields, key) is None,
    decreases fields.len(),
{
    if fields.len() > 0 {
        lemma_obj_lookup_none(fields.drop_first(), key);
    }
}

impl JsonValue {
    /// The value of field `key`, when this value is an object that has it.
    pub fn get<'a>(&'a self, key: &str) -> (r: Option<&'a JsonValue>)
        ensures
            match r {
                Some(v) => jv_get(self@, key@) == Some(v@),
                None => jv_get(self@, key@) is None,
            },
    {
        match self {
            JsonValue::Obj(fields) => {
                let ghost gfields = self@->Obj_0;
                let mut i: usize = 0;
                while i < fields.len()
                    invariant
                        self@ == Json::Obj(gfields),
                        gfields.len() == fields@.len(),
                        forall|j: int| 0 <= j < fields@.len() ==> gfields[j] == (
                            fields@[j].0@,
                            jv_view(fields@[j].1),
                        ),
                        i <= fields@.len(),
                        forall|j: int| 0 <= j < i ==> gfields[j].0 != key@,
                    decreases fields@.len() - i,
                {
                    if crate::strutil::str_eq(fields[i].0.as_str(), key) {
                        proof {
                            lemma_obj_lookup_found(gfields, key@, i as int);
                        }
                        return Some(&fields[i].1);
                    }
                    i += 1;
                }
                proof {
                    lemma_obj_lookup_none(gfields, key@);
                }
                None
            },
            _ => None,
        }
    }

    /// The held string, when this value is a string.
    pub fn as_str<'a>(&'a self) -> (r: Option<&'a str>)
        ensures
            match r {
                Some(s) => self@ == Json::Str(s@),
                None => !(self@ is Str),
            },
    {
        match self {
            JsonValue::Str(s) => Some(s.as_str()),
            _ => None,
        }
    }

    /// The held integer, when this value is a signed integer.
    pub fn as_i64(&self) -> (r: Option<i64>)
        ensures
            match r {
                Some(n) => self@ == Json::Int(n),
                None => !(self@ is Int),
            },
    {
        match self {
            JsonValue::Int(n) => Some(*n),
            _ => None,
        }
    }

    /// The held elements, when this value is an array.
    pub fn as_array<'a>(&'a self) -> (r: Option<&'a Vec<JsonValue>>)
        ensures
            match r {
                Some(a) => self@ is Arr && self@->Arr_0 == views_of(a@),
                None => !(self@ is Arr),
            },
    {
        match self {
            JsonValue::Arr(a) => {
                proof {
                    assert(self@->Arr_0 =~= views_of(a@));
                }
                Some(a)
            },
            _ => None,
        }
    }

    /// The held fields, when this value is an object.
    pub fn as_object<'a>(&'a self) -> (r: Option<&'a Vec<(String, JsonValue)>>)
        ensures
            match r {
                Some(f) => self@ is Obj && self@->Obj_0 == views_of_fields(f@),
                None => !(self@ is Obj),
            },
    {
        match self {
            JsonValue::Obj(f) => {
                proof {
                    assert(self@->Obj_0 =~= views_of_fields(f@));
                }
                Some(f)
            },
            _ => None,
        }
    }

    /// A structurally equal copy of this value.
    pub fn deep_clone(&self) -> (r: JsonValue)
        ensures
            r@ == self@,
        decreases *self,
    {
        match self {
            JsonValue::Null => JsonValue::Null,
            JsonValue::Bool(b) => JsonValue::Bool(*b),
            JsonValue::Int(n) => JsonValue::Int(*n),
            JsonValue::Uint(n) => JsonValue::Uint(*n),
            JsonValue::Float(bits) => JsonValue::Float(*bits),
            JsonValue::Str(s) => JsonValue::Str(s.clone()),
            JsonValue::Arr(a) => {
                let mut out: Vec<JsonValue> = Vec::new();
                let mut i: usize = 0;
                while i < a.len()
                    invariant
                        *self is Arr && *a == self->Arr_0,
                        i <= a@.len(),
                        out@.len() == i,
                        forall|j: int| 0 <= j < i ==> jv_view(#[trigger] out@[j]) == jv_view(
                            a@[j],
                        ),
                    decreases a@.len() - i,
                {
                    proof {
                        assert(*a == self->Arr_0);
                        assert(decreases_to!(*self => self->Arr_0));
                        assert(decreases_to!(*a => a@[i as int]));
                    }
                    let c = a[i].deep_clone();
                    out.push(c);
                    i += 1;
                }
                let r = JsonValue::Arr(out);
                proof {
                    assert(r@->Arr_0 =~= (*self)@->Arr_0);
                }
                r
            },
            JsonValue::Obj(f) => {
                let mut out: Vec<(String, JsonValue)> = Vec::new();
                let mut i: usize = 0;
                while i < f.len()
                    invariant
                        *self is Obj && *f == self->Obj_0,
                        i <= f@.len(),
                        out@.len() == i,
                        forall|j: int| 0 <= j < i ==> (#[trigger] out@[j]).0@ == f@[j].0@
                            && jv_view(out@[j].1) == jv_view(f@[j].1),
                    decreases f@.len() - i,
                {
                    proof {
                        assert(*f == self->Obj_0);
                        assert(decreases_to!(*self => self->Obj_0));
                        assert(decreases_to!(*f => f@[i as int]));
                    }
                    let k = f[i].0.clone();
                    let v = f[i].1.deep_clone();
                    out.push((k, v));
                    i += 1;
                }
                let r = JsonValue::Obj(out);
                proof {
                    assert(r@->Obj_0 =~= (*self)@->Obj_0);
                }
                r
            },
        }
    }
}

} // verus!
