use fhirpath_core::{
    BuiltinFunction, EvaluationContext, FhirPathValue, FhirResource, FunctionError,
    FunctionRegistry, Json, ResolveFunction,
};

fn s(v: &str) -> Json {
    Json::Str(v.to_string())
}

fn obj(members: Vec<(&str, Json)>) -> Json {
    Json::Object(members.into_iter().map(|(k, v)| (k.to_string(), v)).collect())
}

fn resource(resource_type: &str, id: &str) -> Json {
    obj(vec![("resourceType", s(resource_type)), ("id", s(id))])
}

fn doc(j: Json) -> FhirPathValue {
    FhirPathValue::Resource(FhirResource::from_json(j))
}

fn text(v: &str) -> FhirPathValue {
    FhirPathValue::String(v.to_string())
}

fn context(input: FhirPathValue, root: FhirPathValue) -> EvaluationContext {
    EvaluationContext { input, root, environment: Vec::new() }
}

fn run(input: FhirPathValue, root: Json) -> FhirPathValue {
    let ctx = context(input, doc(root));
    ResolveFunction.evaluate(&[], &ctx).unwrap()
}

fn patient_with_contained() -> Json {
    obj(vec![
        ("resourceType", s("Observation")),
        ("id", s("obs")),
        (
            "contained",
            Json::Array(vec![obj(vec![
                ("resourceType", s("Patient")),
                ("id", s("p1")),
                ("active", Json::Bool(true)),
            ])]),
        ),
    ])
}

fn contained_patient() -> FhirPathValue {
    doc(obj(vec![("resourceType", s("Patient")), ("id", s("p1")), ("active", Json::Bool(true))]))
}

fn bundle() -> Json {
    obj(vec![
        ("resourceType", s("Bundle")),
        (
            "entry",
            Json::Array(vec![obj(vec![
                ("fullUrl", s("urn:uuid:abc")),
                ("resource", resource("Patient", "p1")),
            ])]),
        ),
    ])
}

#[test]
fn collection_drops_empty_entries() {
    let c = FhirPathValue::collection(vec![
        FhirPathValue::Empty,
        FhirPathValue::Integer(7),
        FhirPathValue::Empty,
    ]);
    assert_eq!(c, FhirPathValue::Collection(vec![FhirPathValue::Integer(7)]));
}

#[test]
fn collection_flattens_nested_collections() {
    let c = FhirPathValue::collection(vec![
        text("a"),
        FhirPathValue::Collection(vec![text("b"), FhirPathValue::Empty, text("c")]),
        FhirPathValue::Empty,
        FhirPathValue::Boolean(false),
    ]);
    assert_eq!(
        c,
        FhirPathValue::Collection(vec![text("a"), text("b"), text("c"), FhirPathValue::Boolean(false)])
    );
}

#[test]
fn resolve_of_empty_is_empty() {
    assert_eq!(run(FhirPathValue::Empty, bundle()), FhirPathValue::Empty);
}

#[test]
fn resolve_skips_non_reference_string() {
    let input = FhirPathValue::Collection(vec![text("not-a-ref"), text("#p1")]);
    let out = run(input, patient_with_contained());
    assert_eq!(out, FhirPathValue::Collection(vec![contained_patient()]));
}

#[test]
fn resolve_fragment_to_contained_resource() {
    assert_eq!(
        run(text("#p1"), patient_with_contained()),
        FhirPathValue::Collection(vec![contained_patient()])
    );
    let reference = doc(obj(vec![("reference", s("#p1"))]));
    assert_eq!(
        run(reference, patient_with_contained()),
        FhirPathValue::Collection(vec![contained_patient()])
    );
}

#[test]
fn resolve_missing_fragment_gives_nothing() {
    assert_eq!(run(text("#missing"), patient_with_contained()), FhirPathValue::Collection(vec![]));
}

#[test]
fn resolve_bundle_by_full_url() {
    assert_eq!(
        run(text("urn:uuid:abc"), bundle()),
        FhirPathValue::Collection(vec![doc(resource("Patient", "p1"))])
    );
}

#[test]
fn resolve_bundle_by_type_and_id() {
    assert_eq!(
        run(text("Patient/p1"), bundle()),
        FhirPathValue::Collection(vec![doc(resource("Patient", "p1"))])
    );
}

#[test]
fn resolve_bundle_by_full_url_tail() {
    let b = obj(vec![
        ("resourceType", s("Bundle")),
        (
            "entry",
            Json::Array(vec![obj(vec![
                ("fullUrl", s("http://example.org/fhir/Patient/p9")),
                ("resource", obj(vec![("resourceType", s("Patient"))])),
            ])]),
        ),
    ]);
    assert_eq!(
        run(text("Patient/p9"), b),
        FhirPathValue::Collection(vec![doc(obj(vec![("resourceType", s("Patient"))]))])
    );
}

#[test]
fn resolve_parameters_nested_part() {
    let params = obj(vec![
        ("resourceType", s("Parameters")),
        (
            "parameter",
            Json::Array(vec![obj(vec![(
                "part",
                Json::Array(vec![obj(vec![("resource", resource("Observation", "o1"))])]),
            )])]),
        ),
    ]);
    assert_eq!(
        run(text("Observation/o1"), params),
        FhirPathValue::Collection(vec![doc(resource("Observation", "o1"))])
    );
}

#[test]
fn resolve_root_itself() {
    let root = resource("Patient", "p1");
    assert_eq!(
        run(text("http://example.org/Patient/p1?_format=json"), root),
        FhirPathValue::Collection(vec![doc(resource("Patient", "p1"))])
    );
}

#[test]
fn resolve_trims_white_space() {
    assert_eq!(
        run(text("  Patient/p1\t"), bundle()),
        FhirPathValue::Collection(vec![doc(resource("Patient", "p1"))])
    );
}

#[test]
fn resolve_against_multi_root_collection() {
    let root = FhirPathValue::Collection(vec![
        text("ignored"),
        doc(resource("Patient", "a")),
        doc(resource("Patient", "b")),
    ]);
    let ctx = context(text("Patient/b"), root);
    assert_eq!(
        ResolveFunction.evaluate(&[], &ctx).unwrap(),
        FhirPathValue::Collection(vec![doc(resource("Patient", "b"))])
    );
}

#[test]
fn resolve_unknown_reference_gives_nothing() {
    assert_eq!(run(text("Patient/zzz"), bundle()), FhirPathValue::Collection(vec![]));
}

#[test]
fn resolve_with_an_argument_is_an_arity_error() {
    let ctx = context(text("Patient/p1"), doc(bundle()));
    let r = ResolveFunction.evaluate(&[FhirPathValue::Integer(1)], &ctx);
    assert_eq!(
        r,
        Err(FunctionError::InvalidArity {
            name: "resolve".to_string(),
            min: 0,
            max: Some(0),
            actual: 1,
        })
    );
}

#[test]
fn resolve_twice_gives_equal_resources() {
    let ctx = context(text("Patient/p1"), doc(bundle()));
    let first = ResolveFunction.evaluate(&[], &ctx).unwrap();
    let second = ResolveFunction.evaluate(&[], &ctx).unwrap();
    assert_eq!(first, second);
    assert_eq!(first, FhirPathValue::Collection(vec![doc(resource("Patient", "p1"))]));
}

#[test]
fn unknown_function_is_reported() {
    let registry = FunctionRegistry::with_builtins();
    let ctx = context(text("Patient/p1"), doc(bundle()));
    let r = registry.call("frobnicate", &[FhirPathValue::Integer(1)], &ctx);
    assert_eq!(r, Err(FunctionError::UnknownFunction { name: "frobnicate".to_string() }));
}

#[test]
fn registry_dispatches_resolve() {
    let registry = FunctionRegistry::with_builtins();
    let ctx = context(text("urn:uuid:abc"), doc(bundle()));
    assert_eq!(
        registry.call("resolve", &[], &ctx),
        Ok(FhirPathValue::Collection(vec![doc(resource("Patient", "p1"))]))
    );
    assert!(registry.lookup("resolve").is_some());
    assert!(registry.lookup("where").is_none());
}

#[test]
fn registry_refuses_duplicates_and_late_registration() {
    let mut registry = FunctionRegistry::new();
    assert_eq!(registry.register(BuiltinFunction::Resolve(ResolveFunction)), Ok(()));
    assert_eq!(
        registry.register(BuiltinFunction::Resolve(ResolveFunction)),
        Err(fhirpath_core::RegistryError::DuplicateName)
    );
    let mut frozen = FunctionRegistry::with_builtins();
    assert_eq!(
        frozen.register(BuiltinFunction::Resolve(ResolveFunction)),
        Err(fhirpath_core::RegistryError::Frozen)
    );
}

#[test]
fn reference_shapes() {
    let f = ResolveFunction;
    assert!(f.is_fhir_reference("Patient/1"));
    assert!(f.is_fhir_reference("http://x"));
    assert!(f.is_fhir_reference("https://x"));
    assert!(f.is_fhir_reference("urn:uuid:1"));
    assert!(!f.is_fhir_reference("not-a-ref"));
    assert!(!f.is_fhir_reference("#p1"));
}

#[test]
fn reference_resource_detection() {
    let f = ResolveFunction;
    assert!(f.is_reference(&FhirResource::from_json(obj(vec![("reference", s("Patient/1"))]))));
    assert!(!f.is_reference(&FhirResource::from_json(resource("Patient", "1"))));
}

#[test]
fn contained_lookup_by_id() {
    let ctx = context(FhirPathValue::Empty, doc(patient_with_contained()));
    assert_eq!(ResolveFunction.resolve_contained_resource("p1", &ctx), Some(contained_patient()));
    assert_eq!(ResolveFunction.resolve_contained_resource("p2", &ctx), None);
}

#[test]
fn resolve_signature_takes_no_arguments() {
    let sig = ResolveFunction.signature();
    assert_eq!(sig.name, "resolve");
    assert_eq!(sig.min_arity(), 0);
    assert_eq!(sig.max_arity(), Some(0));
    assert_eq!(sig.check_arity(0), Ok(()));
    assert_eq!(
        sig.check_arity(2),
        Err(FunctionError::InvalidArity { name: "resolve".to_string(), min: 0, max: Some(0), actual: 2 })
    );
}
