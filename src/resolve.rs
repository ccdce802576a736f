//! The `resolve()` function: turns reference strings and Reference-shaped
//! values into the resources they point to inside the root document.

use crate::function::{is_arity_error, EvaluationContext, FunctionError, FunctionResult, FunctionSignature};
use crate::json::{
    array_field, field, lemma_field_decreases, lemma_models, model, models, str_field, Json,
    JsonVal,
};
use crate::text::{
    chars_of, contains_char, has_prefix, looks_like_reference, parse_reference_type_id,
    same_chars, slice, starts_with, trim, trimmed, type_id_of_reference,
};
use crate::types::TypeInfo;
use crate::value::{value_model, value_models, lemma_value_models, lemma_value_models_push, FhirPathValue, FhirResource, ValueModel};
use vstd::prelude::*;

verus! {

/// The view of an optional document.
pub open spec fn opt_model(o: Option<Json>) -> Option<JsonVal> {
    match o {
        Some(j) => Some(j@),
        None => None,
    }
}

/// The `(resourceType, id)` pair of a resource, when both are strings.
pub open spec fn resource_key(r: JsonVal) -> Option<(Seq<char>, Seq<char>)> {
    match (str_field(r, "resourceType"@), str_field(r, "id"@)) {
        (Some(t), Some(id)) => Some((t, id)),
        _ => None,
    }
}

/// The first item of `items`, from position `i` on, whose `id` is `id`.
pub open spec fn find_by_id(items: Seq<JsonVal>, id: Seq<char>, i: int) -> Option<JsonVal>
    decreases items.len() - i,
{
    if i < 0 || i >= items.len() {
        None
    } else if str_field(items[i], "id"@) == Some(id) {
        Some(items[i])
    } else {
        find_by_id(items, id, i + 1)
    }
}

/// The resource contained in `root` under the fragment id `id`.
pub open spec fn contained_target(root: ValueModel, id: Seq<char>) -> Option<JsonVal> {
    match root {
        ValueModel::Resource(doc) => match array_field(doc, "contained"@) {
            Some(items) => find_by_id(items, id, 0),
            None => None,
        },
        _ => None,
    }
}

/// Bundle, first pass: the resource of the first entry whose `fullUrl` is
/// exactly `reference`.
pub open spec fn bundle_by_full_url(entries: Seq<JsonVal>, reference: Seq<char>, i: int) -> Option<
    JsonVal,
>
    decreases entries.len() - i,
{
    if i < 0 || i >= entries.len() {
        None
    } else if str_field(entries[i], "fullUrl"@) == Some(reference) && field(
        entries[i],
        "resource"@,
    ) is Some {
        field(entries[i], "resource"@)
    } else {
        bundle_by_full_url(entries, reference, i + 1)
    }
}

/// Bundle, second pass: the first entry resource whose own
/// `(resourceType, id)` is `key`.
pub open spec fn bundle_by_type_id(
    entries: Seq<JsonVal>,
    key: (Seq<char>, Seq<char>),
    i: int,
) -> Option<JsonVal>
    decreases entries.len() - i,
{
    if i < 0 || i >= entries.len() {
        None
    } else if field(entries[i], "resource"@) matches Some(r) && resource_key(r) == Some(key) {
        field(entries[i], "resource"@)
    } else {
        bundle_by_type_id(entries, key, i + 1)
    }
}

/// Bundle, third pass: the resource of the first entry whose `fullUrl` ends
/// with the `(type, id)` pair `key`.
pub open spec fn bundle_by_url_tail(
    entries: Seq<JsonVal>,
    key: (Seq<char>, Seq<char>),
    i: int,
) -> Option<JsonVal>
    decreases entries.len() - i,
{
    if i < 0 || i >= entries.len() {
        None
    } else if str_field(entries[i], "fullUrl"@) matches Some(u) && type_id_of_reference(u) == Some(
        key,
    ) && field(entries[i], "resource"@) is Some {
        field(entries[i], "resource"@)
    } else {
        bundle_by_url_tail(entries, key, i + 1)
    }
}

/// Resolution inside a Bundle: the three passes, in order.
pub open spec fn in_bundle(reference: Seq<char>, bundle: JsonVal) -> Option<JsonVal> {
    match array_field(bundle, "entry"@) {
        None => None,
        Some(entries) => match bundle_by_full_url(entries, reference, 0) {
            Some(r) => Some(r),
            None => match type_id_of_reference(reference) {
                None => None,
                Some(key) => match bundle_by_type_id(entries, key, 0) {
                    Some(r) => Some(r),
                    None => bundle_by_url_tail(entries, key, 0),
                },
            },
        },
    }
}

/// Depth-first search of a `parameter` (or `part`) array, from position `i`
/// on, for an embedded resource whose `(resourceType, id)` is `key`: a
/// parameter's own `resource` is tried before its nested `part`s.
pub open spec fn search_parameters(
    params: Seq<JsonVal>,
    key: (Seq<char>, Seq<char>),
    i: int,
) -> Option<JsonVal>
    decreases params, params.len() - i,
{
    if i < 0 || i >= params.len() {
        None
    } else if field(params[i], "resource"@) matches Some(r) && resource_key(r) == Some(key) {
        field(params[i], "resource"@)
    } else {
        match field(params[i], "part"@) {
            Some(JsonVal::Array(parts)) => {
                proof {
                    lemma_field_decreases(params[i], "part"@);
                    assert(decreases_to!(params => params[i]));
                }
                match search_parameters(parts, key, 0) {
                    Some(r) => Some(r),
                    None => search_parameters(params, key, i + 1),
                }
            },
            _ => search_parameters(params, key, i + 1),
        }
    }
}

/// Resolution inside a Parameters resource.
pub open spec fn in_parameters(reference: Seq<char>, parameters: JsonVal) -> Option<JsonVal> {
    match array_field(parameters, "parameter"@) {
        None => None,
        Some(params) => match type_id_of_reference(reference) {
            None => None,
            Some(key) => search_parameters(params, key, 0),
        },
    }
}

/// The resource itself, when its own `(resourceType, id)` is the pair that
/// `reference` ends with.
pub open spec fn as_itself(reference: Seq<char>, resource: JsonVal) -> Option<JsonVal> {
    match type_id_of_reference(reference) {
        Some(key) => if resource_key(resource) == Some(key) {
            Some(resource)
        } else {
            None
        },
        None => None,
    }
}

/// Resolution against one root resource: inside it when it is a Bundle or a
/// Parameters resource, else (or failing that) the resource itself.
pub open spec fn in_resource(reference: Seq<char>, resource: JsonVal) -> Option<JsonVal> {
    let rt = str_field(resource, "resourceType"@);
    let inner = if rt == Some("Bundle"@) {
        in_bundle(reference, resource)
    } else if rt == Some("Parameters"@) {
        in_parameters(reference, resource)
    } else {
        None
    };
    match inner {
        Some(r) => Some(r),
        None => as_itself(reference, resource),
    }
}

/// Resolution against the members of a multi-root collection, from position
/// `i` on: the first member resource that resolves it wins.
pub open spec fn in_roots(reference: Seq<char>, roots: Seq<ValueModel>, i: int) -> Option<JsonVal>
    decreases roots.len() - i,
{
    if i < 0 || i >= roots.len() {
        None
    } else if roots[i] matches ValueModel::Resource(doc) && in_resource(reference, doc) is Some {
        in_resource(reference, roots[i]->Resource_0)
    } else {
        in_roots(reference, roots, i + 1)
    }
}

/// Resolution of a non-fragment reference against the root value.
pub open spec fn in_root(reference: Seq<char>, root: ValueModel) -> Option<JsonVal> {
    match root {
        ValueModel::Resource(doc) => in_resource(reference, doc),
        ValueModel::Collection(items) => in_roots(reference, items, 0),
        _ => None,
    }
}

/// What a reference string resolves to against `root`: after trimming, a
/// `#id` fragment names a contained resource; another string must look like a
/// reference and is looked up in the root; anything else resolves to nothing.
pub open spec fn resolve_reference(raw: Seq<char>, root: ValueModel) -> Option<JsonVal> {
    let s = trimmed(raw);
    if has_prefix(s, "#"@) {
        contained_target(root, s.subrange(1, s.len() as int))
    } else if looks_like_reference(s) {
        in_root(s, root)
    } else {
        None
    }
}

/// The reference string an input item carries: a string itself, or the
/// string `reference` member of a Reference-shaped resource.
pub open spec fn reference_text(item: ValueModel) -> Option<Seq<char>> {
    match item {
        ValueModel::String(s) => Some(s),
        ValueModel::Resource(doc) => str_field(doc, "reference"@),
        _ => None,
    }
}

/// What one input item resolves to against `root`.
pub open spec fn resolve_item_spec(item: ValueModel, root: ValueModel) -> Option<JsonVal> {
    match reference_text(item) {
        Some(s) => resolve_reference(s, root),
        None => None,
    }
}

/// The resources that `items` resolve to, in order; items that resolve to
/// nothing are dropped.
pub open spec fn resolve_all(items: Seq<ValueModel>, root: ValueModel) -> Seq<ValueModel>
    decreases items.len(),
{
    if items.len() == 0 {
        Seq::empty()
    } else {
        let rest = resolve_all(items.subrange(0, items.len() - 1), root);
        match resolve_item_spec(items[items.len() - 1], root) {
            Some(doc) => rest.push(ValueModel::Resource(doc)),
            None => rest,
        }
    }
}

/// The result of `resolve()` on the input `input` against `root`.
pub open spec fn resolve_result(input: ValueModel, root: ValueModel) -> ValueModel {
    match input {
        ValueModel::Empty => ValueModel::Empty,
        ValueModel::Collection(items) => ValueModel::Collection(resolve_all(items, root)),
        single => ValueModel::Collection(resolve_all(seq![single], root)),
    }
}

/// Whether the string `s` holds the characters `c`.
fn text_is(s: &String, c: &Vec<char>) -> (r: bool)
    ensures
        r == (s@ == c@),
{
    same_chars(&chars_of(s.as_str()), c)
}

/// Whether a document's `(resourceType, id)` is `(t, id)`.
fn has_key(doc: &Json, t: &Vec<char>, id: &Vec<char>) -> (r: bool)
    ensures
        r == (resource_key(doc@) == Some((t@, id@))),
{
    match (doc.get_str("resourceType"), doc.get_str("id")) {
        (Some(rt), Some(rid)) => text_is(rt, t) && text_is(rid, id),
        _ => false,
    }
}

/// The first item of `items` whose `id` is `id`.
fn find_contained(items: &Vec<Json>, id: &Vec<char>) -> (r: Option<Json>)
    ensures
        opt_model(r) == find_by_id(models(items@), id@, 0),
{
    proof {
        lemma_models(items@);
    }
    let ghost m = models(items@);
    let mut i: usize = 0;
    while i < items.len()
        invariant
            i <= items.len(),
            m == models(items@),
            m.len() == items@.len(),
            forall|k: int| 0 <= k < items@.len() ==> #[trigger] m[k] == model(items@[k]),
            find_by_id(m, id@, 0) == find_by_id(m, id@, i as int),
        decreases items.len() - i,
    {
        let item = &items[i];
        if let Some(item_id) = item.get_str("id") {
            if text_is(item_id, id) {
                return Some(item.deep_clone());
            }
        }
        i = i + 1;
    }
    None
}

/// The resource contained in the root under the fragment id `id`.
fn contained_in_root(root: &FhirPathValue, id: &Vec<char>) -> (r: Option<Json>)
    ensures
        opt_model(r) == contained_target(root@, id@),
{
    match root {
        FhirPathValue::Resource(doc) => match doc.as_json().get_array("contained") {
            Some(items) => find_contained(items, id),
            None => None,
        },
        _ => None,
    }
}

/// Resolution inside a Bundle.
pub fn resolve_in_bundle(reference: &Vec<char>, bundle: &Json) -> (r: Option<Json>)
    ensures
        opt_model(r) == in_bundle(reference@, bundle@),
{
    let entries = match bundle.get_array("entry") {
        Some(a) => a,
        None => return None,
    };
    proof {
        lemma_models(entries@);
    }
    let ghost m = models(entries@);
    let mut i: usize = 0;
    while i < entries.len()
        invariant
            i <= entries.len(),
            m == models(entries@),
            m.len() == entries@.len(),
            forall|k: int| 0 <= k < entries@.len() ==> #[trigger] m[k] == model(entries@[k]),
            array_field(bundle@, "entry"@) == Some(m),
            bundle_by_full_url(m, reference@, 0) == bundle_by_full_url(m, reference@, i as int),
        decreases entries.len() - i,
    {
        let entry = &entries[i];
        if let Some(url) = entry.get_str("fullUrl") {
            if text_is(url, reference) {
                if let Some(res) = entry.get("resource") {
                    return Some(res.deep_clone());
                }
            }
        }
        i = i + 1;
    }
    let (t, id) = match parse_reference_type_id(reference) {
        Some(p) => p,
        None => return None,
    };
    let ghost key = (t@, id@);
    let mut i: usize = 0;
    while i < entries.len()
        invariant
            i <= entries.len(),
            m == models(entries@),
            m.len() == entries@.len(),
            forall|k: int| 0 <= k < entries@.len() ==> #[trigger] m[k] == model(entries@[k]),
            key == (t@, id@),
            array_field(bundle@, "entry"@) == Some(m),
            bundle_by_full_url(m, reference@, 0) is None,
            type_id_of_reference(reference@) == Some(key),
            bundle_by_type_id(m, key, 0) == bundle_by_type_id(m, key, i as int),
        decreases entries.len() - i,
    {
        let entry = &entries[i];
        if let Some(res) = entry.get("resource") {
            if has_key(res, &t, &id) {
                return Some(res.deep_clone());
            }
        }
        i = i + 1;
    }
    let mut i: usize = 0;
    while i < entries.len()
        invariant
            i <= entries.len(),
            m == models(entries@),
            m.len() == entries@.len(),
            forall|k: int| 0 <= k < entries@.len() ==> #[trigger] m[k] == model(entries@[k]),
            key == (t@, id@),
            array_field(bundle@, "entry"@) == Some(m),
            bundle_by_full_url(m, reference@, 0) is None,
            type_id_of_reference(reference@) == Some(key),
            bundle_by_type_id(m, key, 0) is None,
            bundle_by_url_tail(m, key, 0) == bundle_by_url_tail(m, key, i as int),
        decreases entries.len() - i,
    {
        let entry = &entries[i];
        if let Some(url) = entry.get_str("fullUrl") {
            let url_chars = chars_of(url.as_str());
            if let Some((ut, uid)) = parse_reference_type_id(&url_chars) {
                if same_chars(&ut, &t) && same_chars(&uid, &id) {
                    if let Some(res) = entry.get("resource") {
                        return Some(res.deep_clone());
                    }
                }
            }
        }
        i = i + 1;
    }
    None
}

/// Depth-first search of a `parameter` (or `part`) array for an embedded
/// resource whose `(resourceType, id)` is `(t, id)`.
pub fn search_params(array: &Vec<Json>, t: &Vec<char>, id: &Vec<char>) -> (r: Option<Json>)
    ensures
        opt_model(r) == search_parameters(models(array@), (t@, id@), 0),
    decreases array@,
{
    proof {
        lemma_models(array@);
    }
    let ghost m = models(array@);
    let ghost key = (t@, id@);
    let mut i: usize = 0;
    while i < array.len()
        invariant
            i <= array.len(),
            m == models(array@),
            m.len() == array@.len(),
            forall|k: int| 0 <= k < array@.len() ==> #[trigger] m[k] == model(array@[k]),
            key == (t@, id@),
            search_parameters(m, key, 0) == search_parameters(m, key, i as int),
        decreases array.len() - i,
    {
        let param = &array[i];
        if let Some(res) = param.get("resource") {
            if has_key(res, t, id) {
                return Some(res.deep_clone());
            }
        }
        if let Some(p) = param.get("part") {
            if let Some(parts) = p.as_array() {
                proof {
                    let k = choose|k: int|
                        0 <= k < (*param)->Object_0@.len() && #[trigger] (*param)->Object_0@[k].1
                            == *p;
                    assert(decreases_to!(array@ => array@[i as int]));
                    assert(decreases_to!(*param => (*param)->Object_0));
                    assert(decreases_to!((*param)->Object_0 => (*param)->Object_0@));
                    assert(decreases_to!((*param)->Object_0@ => (*param)->Object_0@[k]));
                    assert(decreases_to!((*param)->Object_0@[k] => (*param)->Object_0@[k].1));
                    assert(decreases_to!(*p => (*p)->Array_0));
                    assert(decreases_to!(*parts => parts@));
                    assert(*param == array@[i as int]);
                    assert((*p)->Array_0 == *parts);
                    assert(decreases_to!(array@ => parts@));
                }
                let found = search_params(parts, t, id);
                if found.is_some() {
                    return found;
                }
            }
        }
        i = i + 1;
    }
    None
}

/// Resolution inside a Parameters resource.
pub fn resolve_in_parameters(reference: &Vec<char>, parameters: &Json) -> (r: Option<Json>)
    ensures
        opt_model(r) == in_parameters(reference@, parameters@),
{
    let params = match parameters.get_array("parameter") {
        Some(a) => a,
        None => return None,
    };
    match parse_reference_type_id(reference) {
        Some((t, id)) => search_params(params, &t, &id),
        None => None,
    }
}

/// The resource itself, when `reference` ends with its own type and id.
pub fn resolve_against_resource(reference: &Vec<char>, resource: &Json) -> (r: Option<Json>)
    ensures
        opt_model(r) == as_itself(reference@, resource@),
{
    match parse_reference_type_id(reference) {
        Some((t, id)) => if has_key(resource, &t, &id) {
            Some(resource.deep_clone())
        } else {
            None
        },
        None => None,
    }
}

/// Resolution against one root resource.
pub fn resolve_in_resource(reference: &Vec<char>, resource: &Json) -> (r: Option<Json>)
    ensures
        opt_model(r) == in_resource(reference@, resource@),
{
    let inner = match resource.get_str("resourceType") {
        Some(rt) => if crate::text::same_text(rt.as_str(), "Bundle") {
            resolve_in_bundle(reference, resource)
        } else if crate::text::same_text(rt.as_str(), "Parameters") {
            resolve_in_parameters(reference, resource)
        } else {
            None
        },
        None => None,
    };
    match inner {
        Some(found) => Some(found),
        None => resolve_against_resource(reference, resource),
    }
}

/// Resolution of a non-fragment reference against the root value.
pub fn resolve_in_root(reference: &Vec<char>, root: &FhirPathValue) -> (r: Option<Json>)
    ensures
        opt_model(r) == in_root(reference@, root@),
{
    match root {
        FhirPathValue::Resource(doc) => resolve_in_resource(reference, doc.as_json()),
        FhirPathValue::Collection(items) => {
            proof {
                lemma_value_models(items@);
            }
            let ghost m = value_models(items@);
            let mut i: usize = 0;
            while i < items.len()
                invariant
                    i <= items.len(),
                    *root == FhirPathValue::Collection(*items),
                    m == value_models(items@),
                    m.len() == items@.len(),
                    forall|k: int| 0 <= k < items@.len() ==> #[trigger] m[k] == value_model(items@[k]),
                    in_roots(reference@, m, 0) == in_roots(reference@, m, i as int),
                decreases items.len() - i,
            {
                if let FhirPathValue::Resource(doc) = &items[i] {
                    let found = resolve_in_resource(reference, doc.as_json());
                    if found.is_some() {
                        return found;
                    }
                }
                i = i + 1;
            }
            None
        },
        _ => None,
    }
}

/// Resolving the same reference twice against the same root gives the same
/// resource both times: resolution depends on the reference and the root
/// alone, and leaves both as they were.
pub proof fn lemma_resolve_idempotent(
    reference: Seq<char>,
    root: ValueModel,
    first: Option<ValueModel>,
    second: Option<ValueModel>,
)
    requires
        first == as_resource(resolve_reference(reference, root)),
        second == as_resource(resolve_reference(reference, root)),
    ensures
        first == second,
        first matches Some(v) ==> v is Resource,
{
}

/// `looks_like_reference`, computed.
fn looks_like_reference_chars(s: &Vec<char>) -> (r: bool)
    ensures
        r == looks_like_reference(s@),
{
    contains_char(s, '/') || starts_with(s, "http://") || starts_with(s, "https://")
        || starts_with(s, "urn:")
}

/// The view of an optional value.
pub open spec fn opt_value(o: Option<FhirPathValue>) -> Option<ValueModel> {
    match o {
        Some(v) => Some(v@),
        None => None,
    }
}

/// A found document, as a resource value.
pub open spec fn as_resource(o: Option<JsonVal>) -> Option<ValueModel> {
    match o {
        Some(doc) => Some(ValueModel::Resource(doc)),
        None => None,
    }
}

fn wrap(found: Option<Json>) -> (r: Option<FhirPathValue>)
    ensures
        opt_value(r) == as_resource(opt_model(found)),
{
    match found {
        Some(doc) => Some(FhirPathValue::Resource(FhirResource::from_json(doc))),
        None => None,
    }
}

/// The `resolve()` function: for each input item that is a reference string
/// or a Reference, the resource it points to inside the root document. Items
/// that are no reference, or point to nothing there, are dropped.
#[derive(Clone, Copy, Debug, PartialEq, Eq, Default)]
pub struct ResolveFunction;

impl ResolveFunction {
    /// The registry key.
    pub fn name(&self) -> (r: &'static str)
        ensures
            r@ == "resolve"@,
    {
        "resolve"
    }

    /// A name for people.
    pub fn human_friendly_name(&self) -> (r: &'static str)
        ensures
            r@ == "Resolve Reference"@,
    {
        "Resolve Reference"
    }

    /// No parameters; returns a collection of anything.
    pub fn signature(&self) -> (r: FunctionSignature)
        ensures
            r.name@ == "resolve"@,
            r.parameters@.len() == 0,
            !r.variadic,
            r.return_type matches TypeInfo::Collection(inner) && *inner == TypeInfo::Any,
    {
        FunctionSignature::new(
            "resolve",
            Vec::new(),
            TypeInfo::Collection(Box::new(TypeInfo::Any)),
        )
    }

    /// Runs `resolve()` on the context's input. It takes no arguments.
    pub fn evaluate(&self, args: &[FhirPathValue], context: &EvaluationContext) -> (r:
        FunctionResult<FhirPathValue>)
        ensures
            args@.len() != 0 ==> (r matches Err(e) && is_arity_error(
                e,
                "resolve"@,
                0,
                Some(0),
                args@.len(),
            )),
            args@.len() == 0 ==> (r matches Ok(v) && v@ == resolve_result(
                context.input@,
                context.root@,
            )),
    {
        if args.len() != 0 {
            return Err(
                FunctionError::InvalidArity {
                    name: self.name().to_string(),
                    min: 0,
                    max: Some(0),
                    actual: args.len(),
                },
            );
        }
        match &context.input {
            FhirPathValue::Empty => {
                assert(context.input@ == ValueModel::Empty);
                Ok(FhirPathValue::Empty)
            },
            FhirPathValue::Collection(items) => {
                proof {
                    lemma_value_models(items@);
                }
                let ghost m = value_models(items@);
                let mut out: Vec<FhirPathValue> = Vec::new();
                let mut i: usize = 0;
                while i < items.len()
                    invariant
                        context.input == FhirPathValue::Collection(*items),
                        i <= items.len(),
                        m == value_models(items@),
                        m.len() == items@.len(),
                        forall|k: int|
                            0 <= k < items@.len() ==> #[trigger] m[k] == value_model(items@[k]),
                        value_models(out@) == resolve_all(m.subrange(0, i as int), context.root@),
                    decreases items.len() - i,
                {
                    let found = self.resolve_item(&items[i], context);
                    proof {
                        assert(m.subrange(0, i + 1).subrange(0, i as int) =~= m.subrange(
                            0,
                            i as int,
                        ));
                        assert(m.subrange(0, i + 1)[i as int] == m[i as int]);
                        assert(m[i as int] == items@[i as int]@);
                    }
                    if let Some(v) = found {
                        proof {
                            assert(out@.push(v).subrange(0, out@.len() as int) =~= out@);
                        }
                        out.push(v);
                    }
                    i = i + 1;
                }
                proof {
                    assert(m.subrange(0, i as int) =~= m);
                    assert(context.input@ == ValueModel::Collection(m));
                    assert(resolve_result(context.input@, context.root@) == ValueModel::Collection(resolve_all(m, context.root@)));
                }
                let result = FhirPathValue::Collection(out);
                assert(result@ == ValueModel::Collection(value_models(out@)));
                Ok(result)
            },
            single => {
                let found = self.resolve_item(single, context);
                let mut out: Vec<FhirPathValue> = Vec::new();
                let ghost e = out@;
                proof {
                    assert(seq![single@].subrange(0, 0) =~= Seq::<ValueModel>::empty());
                    assert(seq![single@][0] == single@);
                    assert(value_models(e) == Seq::<ValueModel>::empty());
                    assert(resolve_all(Seq::<ValueModel>::empty(), context.root@)
                        == Seq::<ValueModel>::empty());
                }
                if let Some(v) = found {
                    proof {
                        lemma_value_models_push(e, v);
                    }
                    out.push(v);
                    assert(out@ =~= e.push(v));
                }
                assert(resolve_result(context.input@, context.root@) == ValueModel::Collection(resolve_all(seq![single@], context.root@)));
                assert(value_models(out@) == resolve_all(seq![single@], context.root@));
                let result = FhirPathValue::Collection(out);
                assert(result@ == ValueModel::Collection(value_models(out@)));
                Ok(result)
            },
        }
    }

    /// Resolves one item: a reference string, or a Reference resource.
    pub fn resolve_item(&self, item: &FhirPathValue, context: &EvaluationContext) -> (r: Option<
        FhirPathValue,
    >)
        ensures
            opt_value(r) == as_resource(resolve_item_spec(item@, context.root@)),
    {
        match item {
            FhirPathValue::String(uri) => self.resolve_string_reference(uri.as_str(), context),
            FhirPathValue::Resource(resource) => {
                if self.is_reference(resource) {
                    self.resolve_reference_resource(resource, context)
                } else {
                    None
                }
            },
            _ => None,
        }
    }

    /// Whether a resource has a `reference` member, as a Reference does.
    pub fn is_reference(&self, resource: &FhirResource) -> (r: bool)
        ensures
            r == (field(resource@, "reference"@) is Some),
    {
        resource.as_json().get("reference").is_some()
    }

    /// Resolves the string `reference` member of a Reference resource.
    pub fn resolve_reference_resource(
        &self,
        resource: &FhirResource,
        context: &EvaluationContext,
    ) -> (r: Option<FhirPathValue>)
        ensures
            opt_value(r) == as_resource(
                match str_field(resource@, "reference"@) {
                    Some(s) => resolve_reference(s, context.root@),
                    None => None,
                },
            ),
    {
        match resource.as_json().get_str("reference") {
            Some(reference) => self.resolve_string_reference(reference.as_str(), context),
            None => None,
        }
    }

    /// Resolves a reference string against the context's root.
    pub fn resolve_string_reference(&self, reference: &str, context: &EvaluationContext) -> (r:
        Option<FhirPathValue>)
        ensures
            opt_value(r) == as_resource(resolve_reference(reference@, context.root@)),
    {
        let raw = chars_of(reference);
        let s = trim(&raw);
        if starts_with(&s, "#") {
            proof {
                reveal_strlit("#");
            }
            let id = slice(&s, 1, s.len());
            return wrap(contained_in_root(&context.root, &id));
        }
        if !looks_like_reference_chars(&s) {
            return None;
        }
        wrap(resolve_in_root(&s, &context.root))
    }

    /// The resource contained in the root document under the fragment id `id`.
    pub fn resolve_contained_resource(&self, id: &str, context: &EvaluationContext) -> (r: Option<
        FhirPathValue,
    >)
        ensures
            opt_value(r) == as_resource(contained_target(context.root@, id@)),
    {
        let id_chars = chars_of(id);
        wrap(contained_in_root(&context.root, &id_chars))
    }

    /// Whether a string has the shape of a non-fragment reference: it holds a
    /// `/`, or starts with `http://`, `https://` or `urn:`.
    pub fn is_fhir_reference(&self, reference: &str) -> (r: bool)
        ensures
            r == looks_like_reference(reference@),
    {
        looks_like_reference_chars(&chars_of(reference))
    }
}

} // verus!
