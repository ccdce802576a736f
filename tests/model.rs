use fhirpath_core::text::{chars_of, parse_reference_type_id, trim};
use fhirpath_core::{
    EvaluationContext, FhirPathValue, FunctionSignature, Json, ParameterInfo, TypeInfo,
};

fn chars(s: &str) -> Vec<char> {
    s.chars().collect()
}

#[test]
fn parse_type_and_id_from_url() {
    let r = parse_reference_type_id(&chars("http://h/fhir/Patient/123?x=1#f"));
    assert_eq!(r, Some((chars("Patient"), chars("123"))));
    assert_eq!(parse_reference_type_id(&chars("urn:uuid:abc")), None);
    assert_eq!(parse_reference_type_id(&chars("/x")), Some((chars(""), chars("x"))));
}

#[test]
fn trim_removes_unicode_white_space() {
    assert_eq!(trim(&chars("\u{3000} a b \n")), chars("a b"));
    assert_eq!(trim(&chars("   ")), chars(""));
    assert_eq!(chars_of("héllo"), chars("héllo"));
}

#[test]
fn json_member_lookup() {
    let j = Json::Object(vec![
        ("a".to_string(), Json::Number("1.5".to_string())),
        ("b".to_string(), Json::Array(vec![Json::Null])),
    ]);
    assert_eq!(j.get("a"), Some(&Json::Number("1.5".to_string())));
    assert_eq!(j.get("c"), None);
    assert_eq!(j.get_str("a"), None);
    assert_eq!(j.get_array("b").map(|v| v.len()), Some(1));
    assert_eq!(j.deep_clone(), j);
}

#[test]
fn type_tests() {
    let list = TypeInfo::Collection(Box::new(TypeInfo::Integer));
    assert!(list.matches_value(&FhirPathValue::Collection(vec![FhirPathValue::Integer(1)])));
    assert!(list.matches_value(&FhirPathValue::Empty));
    assert!(!list.matches_value(&FhirPathValue::Collection(vec![FhirPathValue::Boolean(true)])));
    assert!(TypeInfo::String.matches_value(&FhirPathValue::String("x".to_string())));
    assert!(!TypeInfo::String.matches_value(&FhirPathValue::Integer(3)));
    assert!(TypeInfo::Any.matches_value(&FhirPathValue::Date("2020-01-01".to_string())));
}

#[test]
fn signature_with_optional_parameter() {
    let mut sig = FunctionSignature::new(
        "substring",
        vec![
            ParameterInfo { type_info: TypeInfo::Integer, optional: false },
            ParameterInfo { type_info: TypeInfo::Integer, optional: true },
        ],
        TypeInfo::String,
    );
    assert_eq!(sig.min_arity(), 1);
    assert_eq!(sig.max_arity(), Some(2));
    assert!(sig.check_arity(0).is_err());
    assert!(sig.check_arity(2).is_ok());
    assert!(sig.check_arity(3).is_err());
    sig.variadic = true;
    assert_eq!(sig.max_arity(), None);
    assert!(sig.check_arity(30).is_ok());
}

#[test]
fn context_derivation_keeps_root_and_environment() {
    let mut ctx = EvaluationContext::new(FhirPathValue::Integer(1));
    ctx.bind("x", FhirPathValue::Boolean(true));
    let child = ctx.with_input(FhirPathValue::Integer(2));
    assert_eq!(child.input, FhirPathValue::Integer(2));
    assert_eq!(child.root, FhirPathValue::Integer(1));
    assert_eq!(child.variable("x"), Some(&FhirPathValue::Boolean(true)));
    assert_eq!(child.variable("y"), None);
    assert_eq!(ctx.input, FhirPathValue::Integer(1));
}
