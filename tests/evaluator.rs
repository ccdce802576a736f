use fhirpath_core::evaluator::{evaluate, evaluate_root, Expression};
use fhirpath_core::{EvaluationContext, FhirPathValue, FhirResource, FunctionError, FunctionRegistry, Json};

fn s(v: &str) -> Json {
    Json::Str(v.to_string())
}

fn obj(members: Vec<(&str, Json)>) -> Json {
    Json::Object(members.into_iter().map(|(k, v)| (k.to_string(), v)).collect())
}

fn doc(j: Json) -> FhirPathValue {
    FhirPathValue::Resource(FhirResource::from_json(j))
}

fn lit(v: FhirPathValue) -> Box<Expression> {
    Box::new(Expression::Literal(v))
}

fn observation() -> Json {
    obj(vec![
        ("resourceType", s("Observation")),
        ("id", s("o1")),
        ("status", s("final")),
        ("subject", obj(vec![("reference", s("#p1"))])),
        ("value", Json::Number("4.5".to_string())),
        ("flags", Json::Array(vec![Json::Bool(true), Json::Null, Json::Array(vec![Json::Bool(false)])])),
        ("contained", Json::Array(vec![obj(vec![("resourceType", s("Patient")), ("id", s("p1"))])])),
    ])
}

fn member(focus: Expression, name: &str) -> Expression {
    Expression::Member(Box::new(focus), name.to_string())
}

#[test]
fn navigation_reads_members() {
    let registry = FunctionRegistry::with_builtins();
    let r = evaluate_root(&member(Expression::This, "status"), doc(observation()), &registry);
    assert_eq!(r, Ok(vec![FhirPathValue::String("final".to_string())]));
    let r = evaluate_root(&member(Expression::This, "value"), doc(observation()), &registry);
    assert_eq!(r, Ok(vec![FhirPathValue::Decimal("4.5".to_string())]));
}

#[test]
fn navigation_flattens_arrays_and_drops_null() {
    let registry = FunctionRegistry::with_builtins();
    let r = evaluate_root(&member(Expression::This, "flags"), doc(observation()), &registry);
    assert_eq!(r, Ok(vec![FhirPathValue::Boolean(true), FhirPathValue::Boolean(false)]));
}

#[test]
fn navigation_into_missing_member_is_empty() {
    let registry = FunctionRegistry::with_builtins();
    let r = evaluate_root(&member(member(Expression::This, "nothing"), "deeper"), doc(observation()), &registry);
    assert_eq!(r, Ok(vec![]));
}

#[test]
fn resolve_through_the_driver_uses_the_root() {
    let registry = FunctionRegistry::with_builtins();
    let expr = Expression::Invocation(
        Box::new(member(Expression::This, "subject")),
        "resolve".to_string(),
        vec![],
    );
    let r = evaluate_root(&expr, doc(observation()), &registry);
    assert_eq!(r, Ok(vec![doc(obj(vec![("resourceType", s("Patient")), ("id", s("p1"))]))]));
}

#[test]
fn driver_reports_unknown_function() {
    let registry = FunctionRegistry::with_builtins();
    let expr = Expression::Invocation(Box::new(Expression::This), "nope".to_string(), vec![]);
    let r = evaluate_root(&expr, doc(observation()), &registry);
    assert_eq!(r, Err(FunctionError::UnknownFunction { name: "nope".to_string() }));
}

#[test]
fn driver_reports_arity_of_resolve() {
    let registry = FunctionRegistry::with_builtins();
    let expr = Expression::Invocation(
        Box::new(Expression::This),
        "resolve".to_string(),
        vec![Expression::Literal(FhirPathValue::Integer(1))],
    );
    let r = evaluate_root(&expr, doc(observation()), &registry);
    assert_eq!(
        r,
        Err(FunctionError::InvalidArity { name: "resolve".to_string(), min: 0, max: Some(0), actual: 1 })
    );
}

#[test]
fn argument_errors_propagate_first() {
    let registry = FunctionRegistry::with_builtins();
    let bad = Expression::Invocation(Box::new(Expression::This), "missing".to_string(), vec![]);
    let expr = Expression::Invocation(Box::new(Expression::This), "resolve".to_string(), vec![bad]);
    let r = evaluate_root(&expr, doc(observation()), &registry);
    assert_eq!(r, Err(FunctionError::UnknownFunction { name: "missing".to_string() }));
}

#[test]
fn three_valued_logic() {
    let registry = FunctionRegistry::with_builtins();
    let t = || lit(FhirPathValue::Boolean(true));
    let f = || lit(FhirPathValue::Boolean(false));
    let e = || lit(FhirPathValue::Empty);
    let run = |x: Expression| evaluate_root(&x, FhirPathValue::Empty, &registry);
    assert_eq!(run(Expression::And(t(), t())), Ok(vec![FhirPathValue::Boolean(true)]));
    assert_eq!(run(Expression::And(e(), f())), Ok(vec![FhirPathValue::Boolean(false)]));
    assert_eq!(run(Expression::And(e(), t())), Ok(vec![]));
    assert_eq!(run(Expression::Or(e(), t())), Ok(vec![FhirPathValue::Boolean(true)]));
    assert_eq!(run(Expression::Or(f(), f())), Ok(vec![FhirPathValue::Boolean(false)]));
    assert_eq!(run(Expression::Or(e(), f())), Ok(vec![]));
    assert_eq!(
        run(Expression::And(t(), lit(FhirPathValue::Integer(1)))),
        Err(FunctionError::TypeMismatch {
            name: "and".to_string(),
            message: "operand is not a boolean".to_string()
        })
    );
}

#[test]
fn negation() {
    let registry = FunctionRegistry::with_builtins();
    let run = |x: Expression| evaluate_root(&x, FhirPathValue::Empty, &registry);
    assert_eq!(run(Expression::Negate(lit(FhirPathValue::Integer(5)))), Ok(vec![FhirPathValue::Integer(-5)]));
    assert_eq!(run(Expression::Negate(lit(FhirPathValue::Empty))), Ok(vec![]));
    assert_eq!(
        run(Expression::Negate(lit(FhirPathValue::Integer(i64::MIN)))),
        Err(FunctionError::TypeMismatch { name: "-".to_string(), message: "integer overflow".to_string() })
    );
    assert!(run(Expression::Negate(lit(FhirPathValue::String("x".to_string())))).is_err());
}

#[test]
fn variables_come_from_the_environment() {
    let registry = FunctionRegistry::with_builtins();
    let mut ctx = EvaluationContext::new(FhirPathValue::Empty);
    ctx.bind("resource", FhirPathValue::Integer(3));
    assert_eq!(
        evaluate(&Expression::Variable("resource".to_string()), &ctx, &registry),
        Ok(FhirPathValue::Integer(3))
    );
    assert_eq!(
        evaluate(&Expression::Variable("other".to_string()), &ctx, &registry),
        Ok(FhirPathValue::Empty)
    );
}
