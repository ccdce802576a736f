//! Type descriptors: used to declare signatures and to test values.

use crate::value::{FhirPathValue, ValueModel};
use vstd::prelude::*;

verus! {

/// A type tag of the language.
#[derive(Debug, PartialEq)]
pub enum TypeInfo {
    Any,
    Boolean,
    Integer,
    Decimal,
    String,
    Date,
    DateTime,
    Time,
    Resource,
    Collection(Box<TypeInfo>),
}

/// Whether a single (non-collection) value belongs to the type `t`.
pub open spec fn item_conforms(t: TypeInfo, v: ValueModel) -> bool {
    match t {
        TypeInfo::Any => !(v is Collection),
        TypeInfo::Boolean => v is Boolean,
        TypeInfo::Integer => v is Integer,
        TypeInfo::Decimal => v is Decimal,
        TypeInfo::String => v is String,
        TypeInfo::Date => v is Date,
        TypeInfo::DateTime => v is DateTime,
        TypeInfo::Time => v is Time,
        TypeInfo::Resource => v is Resource,
        TypeInfo::Collection(_) => false,
    }
}

/// Whether every element of `items` belongs to the type `t`.
pub open spec fn all_conform(t: TypeInfo, items: Seq<ValueModel>) -> bool {
    forall|i: int| 0 <= i < items.len() ==> item_conforms(t, #[trigger] items[i])
}

/// Whether a value belongs to the type `t`: a collection type takes an empty
/// value or a collection whose every element belongs to the element type; any
/// other type takes a single value of its kind.
pub open spec fn conforms(t: TypeInfo, v: ValueModel) -> bool {
    match t {
        TypeInfo::Collection(inner) => match v {
            ValueModel::Empty => true,
            ValueModel::Collection(items) => all_conform(*inner, items),
            _ => false,
        },
        _ => item_conforms(t, v),
    }
}

impl TypeInfo {
    fn item_matches(&self, v: &FhirPathValue) -> (r: bool)
        ensures
            r == item_conforms(*self, v@),
    {
        match self {
            TypeInfo::Any => !matches!(v, FhirPathValue::Collection(_)),
            TypeInfo::Boolean => matches!(v, FhirPathValue::Boolean(_)),
            TypeInfo::Integer => matches!(v, FhirPathValue::Integer(_)),
            TypeInfo::Decimal => matches!(v, FhirPathValue::Decimal(_)),
            TypeInfo::String => matches!(v, FhirPathValue::String(_)),
            TypeInfo::Date => matches!(v, FhirPathValue::Date(_)),
            TypeInfo::DateTime => matches!(v, FhirPathValue::DateTime(_)),
            TypeInfo::Time => matches!(v, FhirPathValue::Time(_)),
            TypeInfo::Resource => matches!(v, FhirPathValue::Resource(_)),
            TypeInfo::Collection(_) => false,
        }
    }

    /// The runtime type test behind `is`.
    pub fn matches_value(&self, v: &FhirPathValue) -> (r: bool)
        ensures
            r == conforms(*self, v@),
    {
        match self {
            TypeInfo::Collection(inner) => match v {
                FhirPathValue::Empty => true,
                FhirPathValue::Collection(items) => {
                    proof {
                        crate::value::lemma_value_models(items@);
                    }
                    let mut i: usize = 0;
                    while i < items.len()
                        invariant
                            *self == TypeInfo::Collection(*inner),
                            *v == FhirPathValue::Collection(*items),
                            i <= items.len(),
                            crate::value::value_models(items@).len() == items@.len(),
                            forall|k: int|
                                0 <= k < items@.len() ==> #[trigger] crate::value::value_models(
                                    items@,
                                )[k] == crate::value::value_model(items@[k]),
                            forall|k: int|
                                0 <= k < i ==> item_conforms(
                                    **inner,
                                    #[trigger] crate::value::value_models(items@)[k],
                                ),
                        decreases items.len() - i,
                    {
                        if !inner.item_matches(&items[i]) {
                            assert(!item_conforms(
                                **inner,
                                crate::value::value_models(items@)[i as int],
                            ));
                            assert(v@ == ValueModel::Collection(crate::value::value_models(items@)));
                            assert(!all_conform(**inner, crate::value::value_models(items@)));
                            return false;
                        }
                        i = i + 1;
                    }
                    true
                },
                _ => false,
            },
            _ => self.item_matches(v),
        }
    }
}

} // verus!
