//! The value model: empty, scalars, resources and flat collections.

use crate::json::{str_field, Json, JsonVal};
use vstd::prelude::*;

verus! {

/// An owned structured document (a resource, or any JSON object that the
/// language treats as a node, such as a Reference).
#[derive(Debug, PartialEq)]
pub struct FhirResource {
    json: Json,
}

impl View for FhirResource {
    type V = JsonVal;

    closed spec fn view(&self) -> JsonVal {
        self.json@
    }
}

impl FhirResource {
    /// Wraps a document.
    pub fn from_json(json: Json) -> (r: FhirResource)
        ensures
            r@ == json@,
    {
        FhirResource { json }
    }

    /// The wrapped document.
    pub fn as_json(&self) -> (r: &Json)
        ensures
            r@ == self@,
    {
        &self.json
    }

    /// The `resourceType` member, when it is a string.
    pub fn resource_type(&self) -> (r: Option<&String>)
        ensures
            match r {
                Some(s) => str_field(self@, "resourceType"@) == Some(s@),
                None => str_field(self@, "resourceType"@) is None,
            },
    {
        self.json.get_str("resourceType")
    }

    /// A copy of this resource.
    pub fn deep_clone(&self) -> (r: FhirResource)
        ensures
            r@ == self@,
    {
        FhirResource { json: self.json.deep_clone() }
    }
}

/// A value of the language. Numbers other than integers, and temporal values,
/// are kept in their textual form.
#[derive(Debug, PartialEq)]
pub enum FhirPathValue {
    Empty,
    Boolean(bool),
    Integer(i64),
    Decimal(String),
    String(String),
    Date(String),
    DateTime(String),
    Time(String),
    Resource(FhirResource),
    Collection(Vec<FhirPathValue>),
}

/// The mathematical value of a [`FhirPathValue`].
pub enum ValueModel {
    Empty,
    Boolean(bool),
    Integer(int),
    Decimal(Seq<char>),
    String(Seq<char>),
    Date(Seq<char>),
    DateTime(Seq<char>),
    Time(Seq<char>),
    Resource(JsonVal),
    Collection(Seq<ValueModel>),
}

pub open spec fn value_model(v: FhirPathValue) -> ValueModel
    decreases v,
{
    match v {
        FhirPathValue::Empty => ValueModel::Empty,
        FhirPathValue::Boolean(b) => ValueModel::Boolean(b),
        FhirPathValue::Integer(i) => ValueModel::Integer(i as int),
        FhirPathValue::Decimal(s) => ValueModel::Decimal(s@),
        FhirPathValue::String(s) => ValueModel::String(s@),
        FhirPathValue::Date(s) => ValueModel::Date(s@),
        FhirPathValue::DateTime(s) => ValueModel::DateTime(s@),
        FhirPathValue::Time(s) => ValueModel::Time(s@),
        FhirPathValue::Resource(r) => ValueModel::Resource(r@),
        FhirPathValue::Collection(items) => ValueModel::Collection(value_models(items@)),
    }
}

pub open spec fn value_models(s: Seq<FhirPathValue>) -> Seq<ValueModel>
    decreases s,
{
    if s.len() == 0 {
        Seq::empty()
    } else {
        value_models(s.subrange(0, s.len() - 1)).push(value_model(s[s.len() - 1]))
    }
}

impl View for FhirPathValue {
    type V = ValueModel;

    open spec fn view(&self) -> ValueModel {
        value_model(*self)
    }
}

pub proof fn lemma_value_models(s: Seq<FhirPathValue>)
    ensures
        value_models(s).len() == s.len(),
        forall|i: int| 0 <= i < s.len() ==> #[trigger] value_models(s)[i] == value_model(s[i]),
    decreases s.len(),
{
    if s.len() > 0 {
        lemma_value_models(s.subrange(0, s.len() - 1));
    }
}

pub proof fn lemma_value_models_push(s: Seq<FhirPathValue>, x: FhirPathValue)
    ensures
        value_models(s.push(x)) == value_models(s).push(value_model(x)),
{
    assert(s.push(x).subrange(0, s.len() as int) =~= s);
}

/// The elements that a value contributes to a collection built from it:
/// nothing for `Empty`, the (flattened) elements of a collection, and the
/// value itself otherwise.
pub open spec fn flat_one(v: ValueModel) -> Seq<ValueModel>
    decreases v,
{
    match v {
        ValueModel::Empty => Seq::empty(),
        ValueModel::Collection(items) => flat_all(items),
        _ => seq![v],
    }
}

/// The flattened concatenation of what each value contributes.
pub open spec fn flat_all(s: Seq<ValueModel>) -> Seq<ValueModel>
    decreases s,
{
    if s.len() == 0 {
        Seq::empty()
    } else {
        flat_all(s.subrange(0, s.len() - 1)) + flat_one(s[s.len() - 1])
    }
}

/// A value that may stand as a direct element of a collection.
pub open spec fn is_element(v: ValueModel) -> bool {
    !(v is Empty) && !(v is Collection)
}

/// A collection holds no `Empty` and no nested collection.
pub open spec fn is_flat(v: ValueModel) -> bool {
    v matches ValueModel::Collection(items) ==> forall|i: int|
        0 <= i < items.len() ==> is_element(#[trigger] items[i])
}

proof fn lemma_flat_one_elements(v: ValueModel)
    ensures
        forall|i: int| 0 <= i < flat_one(v).len() ==> is_element(#[trigger] flat_one(v)[i]),
    decreases v,
{
    match v {
        ValueModel::Empty => {
            assert(flat_one(v).len() == 0);
        },
        ValueModel::Collection(items) => {
            lemma_flat_all_elements(items);
            assert(flat_one(v) == flat_all(items));
        },
        _ => {
            assert(flat_one(v) == seq![v]);
            assert forall|i: int| 0 <= i < flat_one(v).len() implies is_element(
                #[trigger] flat_one(v)[i],
            ) by {
                assert(i == 0);
                assert(seq![v][0] == v);
            }
        },
    }
}

proof fn lemma_flat_all_elements(s: Seq<ValueModel>)
    ensures
        forall|i: int| 0 <= i < flat_all(s).len() ==> is_element(#[trigger] flat_all(s)[i]),
    decreases s,
{
    if s.len() > 0 {
        lemma_flat_all_elements(s.subrange(0, s.len() - 1));
        lemma_flat_one_elements(s[s.len() - 1]);
        let a = flat_all(s.subrange(0, s.len() - 1));
        let b = flat_one(s[s.len() - 1]);
        assert forall|i: int| 0 <= i < (a + b).len() implies is_element(#[trigger] (a + b)[i]) by {
            if i >= a.len() {
                assert((a + b)[i] == b[i - a.len()]);
            }
        }
    }
}

proof fn lemma_flat_all_push(s: Seq<ValueModel>, x: ValueModel)
    ensures
        flat_all(s.push(x)) == flat_all(s) + flat_one(x),
{
    assert(s.push(x).subrange(0, s.len() as int) =~= s);
}

/// Appends to `out` what `v` contributes to a collection.
fn push_flat(out: &mut Vec<FhirPathValue>, v: FhirPathValue)
    ensures
        value_models(final(out)@) == value_models(old(out)@) + flat_one(v@),
    decreases v,
{
    match v {
        FhirPathValue::Empty => {
            assert(value_models(out@) + Seq::empty() =~= value_models(out@));
        },
        FhirPathValue::Collection(items) => {
            let ghost orig = items@;
            let ghost start = value_models(out@);
            let ghost whole = v;
            proof {
                lemma_value_models(orig);
            }
            let mut items = items;
            let n: usize = items.len();
            assert(n == orig.len());
        assert(items@.len() == orig.len());
            let mut k: usize = 0;
            while items.len() > 0
                invariant
                    whole == v,
                    orig.len() <= usize::MAX,
                    whole == FhirPathValue::Collection(whole->Collection_0),
                    orig == whole->Collection_0@,
                    k <= orig.len(),
                    items@ == orig.subrange(k as int, orig.len() as int),
                    value_models(orig).len() == orig.len(),
                    forall|i: int|
                        0 <= i < orig.len() ==> #[trigger] value_models(orig)[i] == value_model(
                            orig[i],
                        ),
                    value_models(out@) == start + flat_all(value_models(orig).subrange(0, k as int)),
                decreases items.len(),
            {
                let x = items.remove(0);
                proof {
                    assert(x == orig[k as int]);
                    assert(decreases_to!(whole => whole->Collection_0));
                    assert(decreases_to!(whole->Collection_0 => orig));
                    assert(decreases_to!(orig => orig[k as int]));
                }
                push_flat(out, x);
                proof {
                    let m = value_models(orig);
                    assert(m.subrange(0, k + 1) =~= m.subrange(0, k as int).push(m[k as int]));
                    lemma_flat_all_push(m.subrange(0, k as int), m[k as int]);
                    assert(start + flat_all(m.subrange(0, k + 1)) =~= start + flat_all(
                        m.subrange(0, k as int),
                    ) + flat_one(value_model(x)));
                    assert(items@ =~= orig.subrange(k + 1, orig.len() as int));
                }
                k = k + 1;
            }
            proof {
                assert(value_models(orig).subrange(0, k as int) =~= value_models(orig));
            }
        },
        other => {
            proof {
                lemma_value_models_push(out@, other);
            }
            let ghost before = value_models(out@);
            out.push(other);
            proof {
                assert(flat_one(value_model(other)) == seq![value_model(other)]);
                assert(before.push(value_model(other)) =~= before + seq![value_model(other)]);
            }
        },
    }
}

impl FhirPathValue {
    /// A copy of this value.
    pub fn deep_clone(&self) -> (r: FhirPathValue)
        ensures
            r@ == self@,
        decreases self,
    {
        match self {
            FhirPathValue::Empty => FhirPathValue::Empty,
            FhirPathValue::Boolean(b) => FhirPathValue::Boolean(*b),
            FhirPathValue::Integer(i) => FhirPathValue::Integer(*i),
            FhirPathValue::Decimal(s) => FhirPathValue::Decimal(s.clone()),
            FhirPathValue::String(s) => FhirPathValue::String(s.clone()),
            FhirPathValue::Date(s) => FhirPathValue::Date(s.clone()),
            FhirPathValue::DateTime(s) => FhirPathValue::DateTime(s.clone()),
            FhirPathValue::Time(s) => FhirPathValue::Time(s.clone()),
            FhirPathValue::Resource(r) => FhirPathValue::Resource(r.deep_clone()),
            FhirPathValue::Collection(items) => {
                let mut out: Vec<FhirPathValue> = Vec::new();
                let mut i: usize = 0;
                while i < items.len()
                    invariant
                        *self == FhirPathValue::Collection(*items),
                        i <= items.len(),
                        value_models(out@) == value_models(items@.subrange(0, i as int)),
                    decreases items.len() - i,
                {
                    proof {
                        let ghost v = *items;
                        assert(decreases_to!(*self => (*self)->Collection_0));
                        assert(decreases_to!(v => v@));
                        assert(decreases_to!(v@ => v@[i as int]));
                    }
                    let c = items[i].deep_clone();
                    proof {
                        lemma_value_models_push(out@, c);
                        lemma_value_models_push(items@.subrange(0, i as int), items@[i as int]);
                        assert(items@.subrange(0, i + 1) =~= items@.subrange(0, i as int).push(
                            items@[i as int],
                        ));
                    }
                    out.push(c);
                    i = i + 1;
                }
                assert(items@.subrange(0, i as int) =~= items@);
                FhirPathValue::Collection(out)
            },
        }
    }

    /// Builds one flat collection from `items`: `Empty` items are dropped and
    /// the elements of nested collections are spliced in, in order.
    pub fn collection(items: Vec<FhirPathValue>) -> (r: FhirPathValue)
        ensures
            r@ == ValueModel::Collection(flat_all(value_models(items@))),
            is_flat(r@),
    {
        let ghost orig = items@;
        proof {
            lemma_value_models(orig);
        }
        let mut out: Vec<FhirPathValue> = Vec::new();
        let mut items = items;
        let n: usize = items.len();
        assert(n == orig.len());
        let mut k: usize = 0;
        while items.len() > 0
            invariant
                orig.len() <= usize::MAX,
                k <= orig.len(),
                items@ == orig.subrange(k as int, orig.len() as int),
                value_models(orig).len() == orig.len(),
                forall|i: int|
                    0 <= i < orig.len() ==> #[trigger] value_models(orig)[i] == value_model(orig[i]),
                value_models(out@) == flat_all(value_models(orig).subrange(0, k as int)),
            decreases items.len(),
        {
            let x = items.remove(0);
            assert(x == orig[k as int]);
            push_flat(&mut out, x);
            proof {
                let m = value_models(orig);
                assert(m.subrange(0, k + 1) =~= m.subrange(0, k as int).push(m[k as int]));
                lemma_flat_all_push(m.subrange(0, k as int), m[k as int]);
                assert(items@ =~= orig.subrange(k + 1, orig.len() as int));
            }
            k = k + 1;
        }
        proof {
            assert(value_models(orig).subrange(0, k as int) =~= value_models(orig));
            lemma_flat_all_elements(value_models(orig));
        }
        FhirPathValue::Collection(out)
    }
}

/// Building a collection from `[Empty, v, Empty]` gives exactly `[v]` for any
/// value `v` that may stand as an element: empty entries never persist.
pub proof fn lemma_empty_entries_vanish(v: ValueModel)
    requires
        is_element(v),
    ensures
        flat_all(seq![ValueModel::Empty, v, ValueModel::Empty]) == seq![v],
{
    let e = ValueModel::Empty;
    let s0 = Seq::<ValueModel>::empty();
    assert(seq![e, v, e] =~= s0.push(e).push(v).push(e));
    lemma_flat_all_push(s0, e);
    lemma_flat_all_push(s0.push(e), v);
    lemma_flat_all_push(s0.push(e).push(v), e);
    assert(flat_one(v) == seq![v]);
    assert(flat_all(seq![e, v, e]) =~= seq![v]);
}

} // verus!
