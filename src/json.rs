//! JSON-shaped document trees and their mathematical model.

use crate::text::same_text;
use vstd::prelude::*;

verus! {

/// A JSON document tree. Numbers are kept in their textual form.
#[derive(Debug, PartialEq)]
pub enum Json {
    Null,
    Bool(bool),
    Number(String),
    Str(String),
    Array(Vec<Json>),
    Object(Vec<(String, Json)>),
}

/// The mathematical value of a [`Json`] tree.
pub enum JsonVal {
    Null,
    Bool(bool),
    Number(Seq<char>),
    Str(Seq<char>),
    Array(Seq<JsonVal>),
    Object(Seq<(Seq<char>, JsonVal)>),
}

pub open spec fn model(j: Json) -> JsonVal
    decreases j,
{
    match j {
        Json::Null => JsonVal::Null,
        Json::Bool(b) => JsonVal::Bool(b),
        Json::Number(n) => JsonVal::Number(n@),
        Json::Str(s) => JsonVal::Str(s@),
        Json::Array(items) => JsonVal::Array(models(items@)),
        Json::Object(fields) => JsonVal::Object(field_models(fields@)),
    }
}

pub open spec fn models(s: Seq<Json>) -> Seq<JsonVal>
    decreases s,
{
    if s.len() == 0 {
        Seq::empty()
    } else {
        models(s.subrange(0, s.len() - 1)).push(model(s[s.len() - 1]))
    }
}

pub open spec fn field_models(s: Seq<(String, Json)>) -> Seq<(Seq<char>, JsonVal)>
    decreases s,
{
    if s.len() == 0 {
        Seq::empty()
    } else {
        field_models(s.subrange(0, s.len() - 1)).push(
            (s[s.len() - 1].0@, model(s[s.len() - 1].1)),
        )
    }
}

impl View for Json {
    type V = JsonVal;

    open spec fn view(&self) -> JsonVal {
        model(*self)
    }
}

pub proof fn lemma_models(s: Seq<Json>)
    ensures
        models(s).len() == s.len(),
        forall|i: int| 0 <= i < s.len() ==> #[trigger] models(s)[i] == model(s[i]),
    decreases s.len(),
{
    if s.len() > 0 {
        lemma_models(s.subrange(0, s.len() - 1));
    }
}

pub proof fn lemma_field_models(s: Seq<(String, Json)>)
    ensures
        field_models(s).len() == s.len(),
        forall|i: int|
            0 <= i < s.len() ==> #[trigger] field_models(s)[i] == (s[i].0@, model(s[i].1)),
    decreases s.len(),
{
    if s.len() > 0 {
        lemma_field_models(s.subrange(0, s.len() - 1));
    }
}

/// The value under the first member of `fields`, from position `i` on, whose
/// key is `key`.
pub open spec fn lookup_from(fields: Seq<(Seq<char>, JsonVal)>, key: Seq<char>, i: int) -> Option<
    JsonVal,
>
    decreases fields.len() - i,
{
    if i < 0 || i >= fields.len() {
        None
    } else if fields[i].0 == key {
        Some(fields[i].1)
    } else {
        lookup_from(fields, key, i + 1)
    }
}

/// A member found by key is one of the object's members.
pub proof fn lemma_lookup_member(fields: Seq<(Seq<char>, JsonVal)>, key: Seq<char>, i: int)
    requires
        lookup_from(fields, key, i) is Some,
    ensures
        exists|k: int|
            0 <= k < fields.len() && #[trigger] fields[k].1 == lookup_from(fields, key, i)->0,
    decreases fields.len() - i,
{
    if 0 <= i < fields.len() && fields[i].0 != key {
        lemma_lookup_member(fields, key, i + 1);
    }
}

/// A member of an object is smaller than the object.
pub proof fn lemma_field_decreases(j: JsonVal, key: Seq<char>)
    requires
        field(j, key) is Some,
    ensures
        decreases_to!(j => field(j, key)->0),
{
    let fields = j->Object_0;
    lemma_lookup_member(fields, key, 0);
    let k = choose|k: int| 0 <= k < fields.len() && #[trigger] fields[k].1 == lookup_from(fields, key, 0)->0;
    assert(decreases_to!(j => fields));
    assert(decreases_to!(fields => fields[k]));
    assert(decreases_to!(fields[k] => fields[k].1));
}

/// The member `key` of an object; None for a missing member or a non-object.
pub open spec fn field(j: JsonVal, key: Seq<char>) -> Option<JsonVal> {
    match j {
        JsonVal::Object(fields) => lookup_from(fields, key, 0),
        _ => None,
    }
}

/// The member `key` of an object when it is a string.
pub open spec fn str_field(j: JsonVal, key: Seq<char>) -> Option<Seq<char>> {
    match field(j, key) {
        Some(JsonVal::Str(s)) => Some(s),
        _ => None,
    }
}

/// The member `key` of an object when it is an array.
pub open spec fn array_field(j: JsonVal, key: Seq<char>) -> Option<Seq<JsonVal>> {
    match field(j, key) {
        Some(JsonVal::Array(items)) => Some(items),
        _ => None,
    }
}

impl Json {
    /// The member `key` of an object.
    pub fn get(&self, key: &str) -> (r: Option<&Json>)
        ensures
            match r {
                Some(v) => field(self@, key@) == Some(v@) && self is Object && exists|k: int|
                    0 <= k < self->Object_0@.len() && #[trigger] self->Object_0@[k].1 == *v,
                None => field(self@, key@) is None,
            },
    {
        match self {
            Json::Object(fields) => {
                proof {
                    lemma_field_models(fields@);
                }
                let mut i: usize = 0;
                while i < fields.len()
                    invariant
                        i <= fields.len(),
                        field_models(fields@).len() == fields@.len(),
                        forall|k: int|
                            0 <= k < fields@.len() ==> #[trigger] field_models(fields@)[k] == (
                            fields@[k].0@,
                            model(fields@[k].1),
                        ),
                        field(self@, key@) == lookup_from(field_models(fields@), key@, i as int),
                        *self == Json::Object(*fields),
                    decreases fields.len() - i,
                {
                    if same_text(fields[i].0.as_str(), key) {
                        assert(self->Object_0@[i as int].1 == fields@[i as int].1);
                        return Some(&fields[i].1);
                    }
                    i = i + 1;
                }
                None
            },
            _ => None,
        }
    }

    /// The string this value holds, if it is a string.
    pub fn as_str(&self) -> (r: Option<&String>)
        ensures
            match r {
                Some(s) => self@ == JsonVal::Str(s@),
                None => !(self@ is Str),
            },
    {
        match self {
            Json::Str(s) => Some(s),
            _ => None,
        }
    }

    /// The items of this value, if it is an array.
    pub fn as_array(&self) -> (r: Option<&Vec<Json>>)
        ensures
            match r {
                Some(a) => self@ == JsonVal::Array(models(a@)) && *self == Json::Array(*a),
                None => !(self@ is Array),
            },
    {
        match self {
            Json::Array(a) => Some(a),
            _ => None,
        }
    }

    /// The string member `key` of an object.
    pub fn get_str(&self, key: &str) -> (r: Option<&String>)
        ensures
            match r {
                Some(s) => str_field(self@, key@) == Some(s@),
                None => str_field(self@, key@) is None,
            },
    {
        match self.get(key) {
            Some(v) => v.as_str(),
            None => None,
        }
    }

    /// The array member `key` of an object.
    pub fn get_array(&self, key: &str) -> (r: Option<&Vec<Json>>)
        ensures
            match r {
                Some(a) => array_field(self@, key@) == Some(models(a@)),
                None => array_field(self@, key@) is None,
            },
    {
        match self.get(key) {
            Some(v) => v.as_array(),
            None => None,
        }
    }

    /// A copy of this tree.
    pub fn deep_clone(&self) -> (r: Json)
        ensures
            r@ == self@,
        decreases self,
    {
        match self {
            Json::Null => Json::Null,
            Json::Bool(b) => Json::Bool(*b),
            Json::Number(n) => Json::Number(n.clone()),
            Json::Str(s) => Json::Str(s.clone()),
            Json::Array(items) => {
                let mut out: Vec<Json> = Vec::new();
                let mut i: usize = 0;
                while i < items.len()
                    invariant
                        *self == Json::Array(*items),
                        i <= items.len(),
                        models(out@) == models(items@.subrange(0, i as int)),
                    decreases items.len() - i,
                {
                    proof {
                        let ghost v = *items;
                        assert(decreases_to!(*self => (*self)->Array_0));
                        assert(decreases_to!(v => v@));
                        assert(decreases_to!(v@ => v@[i as int]));
                    }
                    let c = items[i].deep_clone();
                    proof {
                        assert(out@.push(c).subrange(0, out@.len() as int) =~= out@);
                        assert(items@.subrange(0, i + 1).subrange(0, i as int) =~= items@.subrange(0, i as int));
                    }
                    out.push(c);
                    i = i + 1;
                }
                assert(items@.subrange(0, i as int) =~= items@);
                Json::Array(out)
            },
            Json::Object(fields) => {
                let mut out: Vec<(String, Json)> = Vec::new();
                let mut i: usize = 0;
                while i < fields.len()
                    invariant
                        *self == Json::Object(*fields),
                        i <= fields.len(),
                        field_models(out@) == field_models(fields@.subrange(0, i as int)),
                    decreases fields.len() - i,
                {
                    proof {
                        let ghost v = *fields;
                        assert(decreases_to!(*self => (*self)->Object_0));
                        assert(decreases_to!(v => v@));
                        assert(decreases_to!(v@ => v@[i as int]));
                        assert(decreases_to!(v@[i as int] => v@[i as int].1));
                    }
                    let c = (fields[i].0.clone(), fields[i].1.deep_clone());
                    proof {
                        assert(out@.push(c).subrange(0, out@.len() as int) =~= out@);
                        assert(fields@.subrange(0, i + 1).subrange(0, i as int) =~= fields@.subrange(0, i as int));
                    }
                    out.push(c);
                    i = i + 1;
                }
                assert(fields@.subrange(0, i as int) =~= fields@);
                Json::Object(out)
            },
        }
    }
}

} // verus!
