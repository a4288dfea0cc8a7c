//! JSON values as the library handles them, with a mathematical model.
//!
//! Text is turned into `Json` and back outside the library (by serde_json in
//! the application); here values are built, inspected and taken apart.
use vstd::prelude::*;

use crate::text::owned;

verus! {

/// A JSON value. Numbers that are not integers keep the text serde_json
/// writes for them.
#[derive(Debug, PartialEq, Eq)]
pub enum Json {
    Null,
    Bool(bool),
    Int(i64),
    /// An integer above `i64::MAX`.
    UInt(u64),
    Float(String),
    Str(String),
    Array(Vec<Json>),
    Object(Vec<(String, Json)>),
}

/// The model of a JSON value.
#[verifier::ext_equal]
pub enum JsonV {
    Null,
    Bool(bool),
    Int(int),
    Float(Seq<char>),
    Str(Seq<char>),
    Array(Seq<JsonV>),
    Object(Seq<(Seq<char>, JsonV)>),
}

pub open spec fn json_view(j: Json) -> JsonV
    decreases j,
{
    match j {
        Json::Null => JsonV::Null,
        Json::Bool(b) => JsonV::Bool(b),
        Json::Int(n) => JsonV::Int(n as int),
        Json::UInt(n) => JsonV::Int(n as int),
        Json::Float(s) => JsonV::Float(s@),
        Json::Str(s) => JsonV::Str(s@),
        Json::Array(v) => JsonV::Array(
            Seq::new(
                v@.len(),
                |i: int|
                    if 0 <= i < v@.len() {
                        json_view(v@[i])
                    } else {
                        JsonV::Null
                    },
            ),
        ),
        Json::Object(v) => JsonV::Object(
            Seq::new(
                v@.len(),
                |i: int|
                    if 0 <= i < v@.len() {
                        (v@[i].0@, json_view(v@[i].1))
                    } else {
                        (Seq::<char>::empty(), JsonV::Null)
                    },
            ),
        ),
    }
}

impl View for Json {
    type V = JsonV;

    open spec fn view(&self) -> JsonV {
        json_view(*self)
    }
}

/// The models of a list of values.
pub open spec fn elems_view(v: Seq<Json>) -> Seq<JsonV> {
    Seq::new(v.len(), |i: int| json_view(v[i]))
}

/// The models of a list of object members.
pub open spec fn fields_view(v: Seq<(String, Json)>) -> Seq<(Seq<char>, JsonV)> {
    Seq::new(v.len(), |i: int| (v[i].0@, json_view(v[i].1)))
}

pub proof fn lemma_array_view(v: Vec<Json>)
    ensures
        json_view(Json::Array(v)) == JsonV::Array(elems_view(v@)),
{
    assert(json_view(Json::Array(v))->Array_0 =~= elems_view(v@));
}

pub proof fn lemma_object_view(v: Vec<(String, Json)>)
    ensures
        json_view(Json::Object(v)) == JsonV::Object(fields_view(v@)),
{
    assert(json_view(Json::Object(v))->Object_0 =~= fields_view(v@));
}

/// The value stored under the first member named `key`.
pub open spec fn lookup(fields: Seq<(Seq<char>, JsonV)>, key: Seq<char>) -> Option<JsonV>
    decreases fields.len(),
{
    if fields.len() == 0 {
        None
    } else if fields[0].0 == key {
        Some(fields[0].1)
    } else {
        lookup(fields.drop_first(), key)
    }
}

/// `v.get(key)`: the member `key` of an object, nothing for other values.
pub open spec fn get(v: JsonV, key: Seq<char>) -> Option<JsonV> {
    match v {
        JsonV::Object(fields) => lookup(fields, key),
        _ => None,
    }
}

/// `v[key]`: the member `key`, or `null` where there is none.
pub open spec fn index(v: JsonV, key: Seq<char>) -> JsonV {
    match get(v, key) {
        Some(x) => x,
        None => JsonV::Null,
    }
}

/// `v.as_str()`.
pub open spec fn as_str(v: JsonV) -> Option<Seq<char>> {
    match v {
        JsonV::Str(s) => Some(s),
        _ => None,
    }
}

/// `v.as_u64()`: a non-negative integer.
pub open spec fn as_u64(v: JsonV) -> Option<int> {
    match v {
        JsonV::Int(n) => if 0 <= n <= u64::MAX {
            Some(n)
        } else {
            None
        },
        _ => None,
    }
}

/// `v.as_i64()`: an integer that fits in `i64`.
pub open spec fn as_i64(v: JsonV) -> Option<int> {
    match v {
        JsonV::Int(n) => if i64::MIN <= n <= i64::MAX {
            Some(n)
        } else {
            None
        },
        _ => None,
    }
}

/// An object holding `fields`.
pub open spec fn obj(fields: Seq<(Seq<char>, JsonV)>) -> JsonV {
    JsonV::Object(fields)
}

/// A string value.
pub open spec fn jstr(s: Seq<char>) -> JsonV {
    JsonV::Str(s)
}

impl Json {
    /// A string value holding `s`.
    pub fn string(s: &str) -> (r: Json)
        ensures
            r@ == JsonV::Str(s@),
    {
        Json::Str(owned(s))
    }

    /// A string value owning `s`.
    pub fn from_string(s: String) -> (r: Json)
        ensures
            r@ == JsonV::Str(s@),
    {
        Json::Str(s)
    }

    /// An integer value.
    pub fn from_u64(n: u64) -> (r: Json)
        ensures
            r@ == JsonV::Int(n as int),
    {
        if n <= 0x7fff_ffff_ffff_ffff {
            Json::Int(n as i64)
        } else {
            Json::UInt(n)
        }
    }

    /// An array of `items`.
    pub fn array(items: Vec<Json>) -> (r: Json)
        ensures
            r@ == JsonV::Array(elems_view(items@)),
    {
        proof {
            lemma_array_view(items);
        }
        Json::Array(items)
    }

    /// An object made of `fields`.
    pub fn object(fields: Vec<(String, Json)>) -> (r: Json)
        ensures
            r@ == JsonV::Object(fields_view(fields@)),
    {
        proof {
            lemma_object_view(fields);
        }
        Json::Object(fields)
    }

    /// An array of strings.
    pub fn string_array(items: &Vec<String>) -> (r: Json)
        ensures
            r@ == JsonV::Array(Seq::new(items@.len(), |i: int| JsonV::Str(items@[i]@))),
    {
        let mut out: Vec<Json> = Vec::new();
        let mut i: usize = 0;
        while i < items.len()
            invariant
                i <= items@.len(),
                elems_view(out@) =~= Seq::new(i as nat, |k: int| JsonV::Str(items@[k]@)),
            decreases items@.len() - i,
        {
            let s = items[i].clone();
            push_elem(&mut out, Json::Str(s));
            i += 1;
        }
        Json::array(out)
    }

    /// A copy of this value.
    pub fn duplicate(&self) -> (r: Json)
        ensures
            r@ == self@,
        decreases self,
    {
        match self {
            Json::Null => Json::Null,
            Json::Bool(b) => Json::Bool(*b),
            Json::Int(n) => Json::Int(*n),
            Json::UInt(n) => Json::UInt(*n),
            Json::Float(s) => Json::Float(s.clone()),
            Json::Str(s) => Json::Str(s.clone()),
            Json::Array(items) => {
                let mut out: Vec<Json> = Vec::new();
                let mut i: usize = 0;
                while i < items.len()
                    invariant
                        i <= items@.len(),
                        *self == Json::Array(*items),
                        elems_view(out@) =~= elems_view(items@).take(i as int),
                    decreases items@.len() - i,
                {
                    proof {
                        assert(decreases_to!(*self => self->Array_0));
                        assert(decreases_to!(*items => items@));
                        assert(decreases_to!(items@ => items@[i as int]));
                    }
                    let item = items[i].duplicate();
                    push_elem(&mut out, item);
                    i += 1;
                }
                proof {
                    lemma_array_view(*items);
                    assert(elems_view(items@).take(items@.len() as int) =~= elems_view(items@));
                }
                Json::array(out)
            },
            Json::Object(fields) => {
                let mut out: Vec<(String, Json)> = Vec::new();
                let mut i: usize = 0;
                while i < fields.len()
                    invariant
                        i <= fields@.len(),
                        *self == Json::Object(*fields),
                        fields_view(out@) =~= fields_view(fields@).take(i as int),
                    decreases fields@.len() - i,
                {
                    let key = fields[i].0.clone();
                    proof {
                        assert(decreases_to!(*self => self->Object_0));
                        assert(decreases_to!(*fields => fields@));
                        assert(decreases_to!(fields@ => fields@[i as int]));
                        assert(decreases_to!(fields@[i as int] => fields@[i as int].1));
                    }
                    let value = fields[i].1.duplicate();
                    push_field(&mut out, key, value);
                    i += 1;
                }
                proof {
                    lemma_object_view(*fields);
                    assert(fields_view(fields@).take(fields@.len() as int) =~= fields_view(
                        fields@,
                    ));
                }
                Json::object(out)
            },
        }
    }

    /// `self.get(key)`.
    pub fn get(&self, key: &str) -> (r: Option<&Json>)
        ensures
            match r {
                Some(x) => get(self@, key@) == Some(x@),
                None => get(self@, key@) is None,
            },
    {
        match self {
            Json::Object(fields) => {
                proof {
                    lemma_object_view(*fields);
                }
                let ghost fv = fields_view(fields@);
                let wanted = owned(key);
                let mut i: usize = 0;
                proof {
                    assert(fv.skip(0) =~= fv);
                }
                while i < fields.len()
                    invariant
                        i <= fields@.len(),
                        fv == fields_view(fields@),
                        self@ == JsonV::Object(fv),
                        wanted@ == key@,
                        lookup(fv, key@) == lookup(fv.skip(i as int), key@),
                    decreases fields@.len() - i,
                {
                    proof {
                        assert(fv.skip(i as int).drop_first() =~= fv.skip(i + 1));
                    }
                    if fields[i].0 == wanted {
                        proof {
                            assert(fv.skip(i as int)[0] == fv[i as int]);
                            assert(fv[i as int] == (fields@[i as int].0@, fields@[i as int].1@));
                            assert(lookup(fv.skip(i as int), key@) == Some(fv[i as int].1));
                            assert(self@ == JsonV::Object(fv));
                        }
                        return Some(&fields[i].1);
                    }
                    i += 1;
                }
                None
            },
            _ => None,
        }
    }

    /// The member `key` as a string, if it is one (`self[key].as_str()`).
    pub fn get_str(&self, key: &str) -> (r: Option<String>)
        ensures
            match r {
                Some(s) => as_str(index(self@, key@)) == Some(s@),
                None => as_str(index(self@, key@)) is None,
            },
    {
        match self.get(key) {
            Some(Json::Str(s)) => Some(s.clone()),
            _ => None,
        }
    }

    /// The member `key` as a non-negative integer (`self[key].as_u64()`).
    pub fn get_u64(&self, key: &str) -> (r: Option<u64>)
        ensures
            match r {
                Some(n) => as_u64(index(self@, key@)) == Some(n as int),
                None => as_u64(index(self@, key@)) is None,
            },
    {
        match self.get(key) {
            Some(Json::Int(n)) => if *n >= 0 {
                Some(*n as u64)
            } else {
                None
            },
            Some(Json::UInt(n)) => Some(*n),
            _ => None,
        }
    }

    /// A copy of the member `key`, or `null` (`self[key].clone()`).
    pub fn member(&self, key: &str) -> (r: Json)
        ensures
            r@ == index(self@, key@),
    {
        match self.get(key) {
            Some(x) => x.duplicate(),
            None => Json::Null,
        }
    }
}

/// Appends a value to an array under construction.
pub fn push_elem(items: &mut Vec<Json>, value: Json)
    ensures
        elems_view(final(items)@) == elems_view(old(items)@).push(value@),
{
    items.push(value);
    proof {
        assert(elems_view(items@) =~= elems_view(old(items)@).push(value@));
    }
}

/// Appends a member to an object under construction.
pub fn push_field(fields: &mut Vec<(String, Json)>, key: String, value: Json)
    ensures
        fields_view(final(fields)@) == fields_view(old(fields)@).push((key@, value@)),
{
    let ghost kv = key@;
    let ghost vv = value@;
    fields.push((key, value));
    proof {
        assert(fields_view(fields@) =~= fields_view(old(fields)@).push((kv, vv)));
    }
}

/// Appends the member `key: value` to an object under construction.
pub fn add_field(fields: &mut Vec<(String, Json)>, key: &str, value: Json)
    ensures
        fields_view(final(fields)@) == fields_view(old(fields)@).push((key@, value@)),
{
    push_field(fields, owned(key), value);
}

} // verus!
