//! The evaluation driver: walks an expression tree against a context,
//! navigating documents and dispatching function calls through a registry.

use crate::function::{
    env_find, env_model, result_model, ErrorModel, EvaluationContext, FunctionError,
    FunctionResult,
};
use crate::json::{lemma_models, model, models, Json, JsonVal};
use crate::registry::{call_result, BuiltinFunction, FunctionRegistry};
use crate::value::{
    lemma_value_models, lemma_value_models_push, value_model, value_models, FhirPathValue,
    FhirResource, ValueModel,
};
use vstd::prelude::*;

verus! {

/// A node of the expression tree that a parser hands over.
#[derive(Debug, PartialEq)]
pub enum Expression {
    /// A literal value.
    Literal(FhirPathValue),
    /// The current input (`$this`).
    This,
    /// An environment variable (`%name`); an unbound name is empty.
    Variable(String),
    /// A navigation step: the member `name` of each item of the focus.
    Member(Box<Expression>, String),
    /// A call of the function `name` on the focus, with arguments.
    Invocation(Box<Expression>, String, Vec<Expression>),
    /// Three-valued `and`.
    And(Box<Expression>, Box<Expression>),
    /// Three-valued `or`.
    Or(Box<Expression>, Box<Expression>),
    /// Integer negation (unary `-`).
    Negate(Box<Expression>),
}

/// The values a JSON member contributes to a navigation result: nothing for
/// null, a scalar for a boolean, number (kept as text) or string, a resource
/// for an object, and the items of an array, flattened.
pub open spec fn json_items(j: JsonVal) -> Seq<ValueModel>
    decreases j,
{
    match j {
        JsonVal::Null => Seq::empty(),
        JsonVal::Bool(b) => seq![ValueModel::Boolean(b)],
        JsonVal::Number(t) => seq![ValueModel::Decimal(t)],
        JsonVal::Str(s) => seq![ValueModel::String(s)],
        JsonVal::Array(items) => json_items_all(items),
        JsonVal::Object(_) => seq![ValueModel::Resource(j)],
    }
}

pub open spec fn json_items_all(s: Seq<JsonVal>) -> Seq<ValueModel>
    decreases s,
{
    if s.len() == 0 {
        Seq::empty()
    } else {
        json_items_all(s.subrange(0, s.len() - 1)) + json_items(s[s.len() - 1])
    }
}

/// The result of navigating to the member `name` of `v`: the member of a
/// resource, the members of each element of a collection, nothing otherwise.
pub open spec fn navigate(v: ValueModel, name: Seq<char>) -> Seq<ValueModel>
    decreases v,
{
    match v {
        ValueModel::Resource(doc) => match crate::json::field(doc, name) {
            Some(x) => json_items(x),
            None => Seq::empty(),
        },
        ValueModel::Collection(items) => navigate_all(items, name),
        _ => Seq::empty(),
    }
}

pub open spec fn navigate_all(s: Seq<ValueModel>, name: Seq<char>) -> Seq<ValueModel>
    decreases s,
{
    if s.len() == 0 {
        Seq::empty()
    } else {
        navigate_all(s.subrange(0, s.len() - 1), name) + navigate(s[s.len() - 1], name)
    }
}

/// A value read as a boolean operand: `Some(None)` for empty, `Some(Some(b))`
/// for a boolean or a one-boolean collection, None for anything else.
pub open spec fn boolean_of(v: ValueModel) -> Option<Option<bool>> {
    match v {
        ValueModel::Empty => Some(None),
        ValueModel::Boolean(b) => Some(Some(b)),
        ValueModel::Collection(items) => if items.len() == 0 {
            Some(None)
        } else if items.len() == 1 && items[0] is Boolean {
            Some(Some(items[0]->Boolean_0))
        } else {
            None
        },
        _ => None,
    }
}

/// Three-valued conjunction: false wins, then empty.
pub open spec fn and_of(a: Option<bool>, b: Option<bool>) -> ValueModel {
    if a == Some(false) || b == Some(false) {
        ValueModel::Boolean(false)
    } else if a == Some(true) && b == Some(true) {
        ValueModel::Boolean(true)
    } else {
        ValueModel::Empty
    }
}

/// Three-valued disjunction: true wins, then empty.
pub open spec fn or_of(a: Option<bool>, b: Option<bool>) -> ValueModel {
    if a == Some(true) || b == Some(true) {
        ValueModel::Boolean(true)
    } else if a == Some(false) && b == Some(false) {
        ValueModel::Boolean(false)
    } else {
        ValueModel::Empty
    }
}

/// The integer an operand holds: `Some(None)` for empty, `Some(Some(i))` for
/// an integer or a one-integer collection, None for anything else.
pub open spec fn integer_of(v: ValueModel) -> Option<Option<int>> {
    match v {
        ValueModel::Empty => Some(None),
        ValueModel::Integer(i) => Some(Some(i)),
        ValueModel::Collection(items) => if items.len() == 0 {
            Some(None)
        } else if items.len() == 1 && items[0] is Integer {
            Some(Some(items[0]->Integer_0))
        } else {
            None
        },
        _ => None,
    }
}

/// Unary minus on a value.
pub open spec fn negate_of(v: ValueModel) -> Result<ValueModel, ErrorModel> {
    match integer_of(v) {
        Some(None) => Ok(ValueModel::Empty),
        Some(Some(i)) => if i == i64::MIN {
            Err(ErrorModel::TypeMismatch("-"@, "integer overflow"@))
        } else {
            Ok(ValueModel::Integer(-i))
        },
        None => Err(ErrorModel::TypeMismatch("-"@, "operand is not an integer"@)),
    }
}

/// What evaluating `e` gives with input `input`, root `root`, environment
/// `env`, and the registered functions `fs`. Errors propagate at once.
pub open spec fn eval(
    e: Expression,
    input: ValueModel,
    root: ValueModel,
    env: Seq<(Seq<char>, ValueModel)>,
    fs: Seq<BuiltinFunction>,
) -> Result<ValueModel, ErrorModel>
    decreases e,
{
    match e {
        Expression::Literal(v) => Ok(v@),
        Expression::This => Ok(input),
        Expression::Variable(n) => match env_find(env, n@, 0) {
            Some(v) => Ok(v),
            None => Ok(ValueModel::Empty),
        },
        Expression::Member(focus, name) => match eval(*focus, input, root, env, fs) {
            Ok(v) => Ok(ValueModel::Collection(navigate(v, name@))),
            Err(x) => Err(x),
        },
        Expression::Invocation(focus, name, args) => match eval(*focus, input, root, env, fs) {
            Err(x) => Err(x),
            Ok(fv) => match eval_args(args@, fv, root, env, fs) {
                Err(x) => Err(x),
                Ok(vals) => call_result(fs, name@, vals.len(), fv, root),
            },
        },
        Expression::And(l, r) => match eval(*l, input, root, env, fs) {
            Err(x) => Err(x),
            Ok(a) => match eval(*r, input, root, env, fs) {
                Err(x) => Err(x),
                Ok(b) => match (boolean_of(a), boolean_of(b)) {
                    (Some(x), Some(y)) => Ok(and_of(x, y)),
                    _ => Err(ErrorModel::TypeMismatch("and"@, "operand is not a boolean"@)),
                },
            },
        },
        Expression::Or(l, r) => match eval(*l, input, root, env, fs) {
            Err(x) => Err(x),
            Ok(a) => match eval(*r, input, root, env, fs) {
                Err(x) => Err(x),
                Ok(b) => match (boolean_of(a), boolean_of(b)) {
                    (Some(x), Some(y)) => Ok(or_of(x, y)),
                    _ => Err(ErrorModel::TypeMismatch("or"@, "operand is not a boolean"@)),
                },
            },
        },
        Expression::Negate(operand) => match eval(*operand, input, root, env, fs) {
            Err(x) => Err(x),
            Ok(v) => negate_of(v),
        },
    }
}

/// The values of the argument expressions, in order; the first error wins.
pub open spec fn eval_args(
    args: Seq<Expression>,
    input: ValueModel,
    root: ValueModel,
    env: Seq<(Seq<char>, ValueModel)>,
    fs: Seq<BuiltinFunction>,
) -> Result<Seq<ValueModel>, ErrorModel>
    decreases args,
{
    if args.len() == 0 {
        Ok(Seq::empty())
    } else {
        match eval_args(args.subrange(0, args.len() - 1), input, root, env, fs) {
            Err(x) => Err(x),
            Ok(vals) => match eval(args[args.len() - 1], input, root, env, fs) {
                Err(x) => Err(x),
                Ok(v) => Ok(vals.push(v)),
            },
        }
    }
}

proof fn lemma_push_one(out: Seq<FhirPathValue>, x: FhirPathValue)
    ensures
        value_models(out.push(x)) == value_models(out) + seq![value_model(x)],
{
    lemma_value_models_push(out, x);
    assert(value_models(out).push(value_model(x)) =~= value_models(out) + seq![value_model(x)]);
}

/// Appends to `out` the values the JSON value `j` contributes.
fn push_json_items(j: &Json, out: &mut Vec<FhirPathValue>)
    ensures
        value_models(final(out)@) == value_models(old(out)@) + json_items(j@),
    decreases j,
{
    match j {
        Json::Null => {
            assert(value_models(out@) + Seq::empty() =~= value_models(out@));
        },
        Json::Bool(b) => {
            let x = FhirPathValue::Boolean(*b);
            proof {
                lemma_push_one(out@, x);
            }
            out.push(x);
        },
        Json::Number(t) => {
            let x = FhirPathValue::Decimal(t.clone());
            proof {
                lemma_push_one(out@, x);
            }
            out.push(x);
        },
        Json::Str(t) => {
            let x = FhirPathValue::String(t.clone());
            proof {
                lemma_push_one(out@, x);
            }
            out.push(x);
        },
        Json::Object(_) => {
            let x = FhirPathValue::Resource(FhirResource::from_json(j.deep_clone()));
            proof {
                lemma_push_one(out@, x);
            }
            out.push(x);
        },
        Json::Array(items) => {
            proof {
                lemma_models(items@);
            }
            let ghost m = models(items@);
            let ghost start = value_models(out@);
            let mut i: usize = 0;
            while i < items.len()
                invariant
                    *j == Json::Array(*items),
                    i <= items.len(),
                    m == models(items@),
                    m.len() == items@.len(),
                    forall|k: int| 0 <= k < items@.len() ==> #[trigger] m[k] == model(items@[k]),
                    value_models(out@) == start + json_items_all(m.subrange(0, i as int)),
                decreases items.len() - i,
            {
                proof {
                    let ghost v = *items;
                    assert(decreases_to!(*j => (*j)->Array_0));
                    assert(decreases_to!(v => v@));
                    assert(decreases_to!(v@ => v@[i as int]));
                }
                push_json_items(&items[i], out);
                proof {
                    assert(m.subrange(0, i + 1).subrange(0, i as int) =~= m.subrange(0, i as int));
                    assert(m.subrange(0, i + 1)[i as int] == m[i as int]);
                    assert(start + json_items_all(m.subrange(0, i + 1)) =~= start
                        + json_items_all(m.subrange(0, i as int)) + json_items(m[i as int]));
                }
                i = i + 1;
            }
            proof {
                assert(m.subrange(0, i as int) =~= m);
            }
        },
    }
}

/// Appends to `out` the result of navigating to the member `name` of `v`.
fn push_navigate(v: &FhirPathValue, name: &str, out: &mut Vec<FhirPathValue>)
    ensures
        value_models(final(out)@) == value_models(old(out)@) + navigate(v@, name@),
    decreases v,
{
    match v {
        FhirPathValue::Resource(doc) => match doc.as_json().get(name) {
            Some(x) => push_json_items(x, out),
            None => {
                assert(value_models(out@) + Seq::empty() =~= value_models(out@));
            },
        },
        FhirPathValue::Collection(items) => {
            proof {
                lemma_value_models(items@);
            }
            let ghost m = value_models(items@);
            let ghost start = value_models(out@);
            let mut i: usize = 0;
            while i < items.len()
                invariant
                    *v == FhirPathValue::Collection(*items),
                    i <= items.len(),
                    m == value_models(items@),
                    m.len() == items@.len(),
                    forall|k: int|
                        0 <= k < items@.len() ==> #[trigger] m[k] == value_model(items@[k]),
                    value_models(out@) == start + navigate_all(m.subrange(0, i as int), name@),
                decreases items.len() - i,
            {
                proof {
                    let ghost w = *items;
                    assert(decreases_to!(*v => (*v)->Collection_0));
                    assert(decreases_to!(w => w@));
                    assert(decreases_to!(w@ => w@[i as int]));
                }
                push_navigate(&items[i], name, out);
                proof {
                    assert(m.subrange(0, i + 1).subrange(0, i as int) =~= m.subrange(0, i as int));
                    assert(m.subrange(0, i + 1)[i as int] == m[i as int]);
                    assert(start + navigate_all(m.subrange(0, i + 1), name@) =~= start
                        + navigate_all(m.subrange(0, i as int), name@) + navigate(
                        m[i as int],
                        name@,
                    ));
                }
                i = i + 1;
            }
            proof {
                assert(m.subrange(0, i as int) =~= m);
            }
        },
        _ => {
            assert(value_models(out@) + Seq::empty() =~= value_models(out@));
        },
    }
}

/// A value read as a boolean operand.
fn boolean_value(v: &FhirPathValue) -> (r: Option<Option<bool>>)
    ensures
        r == boolean_of(v@),
{
    match v {
        FhirPathValue::Empty => Some(None),
        FhirPathValue::Boolean(b) => Some(Some(*b)),
        FhirPathValue::Collection(items) => {
            proof {
                lemma_value_models(items@);
            }
            if items.len() == 0 {
                Some(None)
            } else if items.len() == 1 {
                match &items[0] {
                    FhirPathValue::Boolean(b) => Some(Some(*b)),
                    _ => None,
                }
            } else {
                None
            }
        },
        _ => None,
    }
}

/// A value read as an integer operand.
fn integer_value(v: &FhirPathValue) -> (r: Option<Option<i64>>)
    ensures
        match r {
            Some(Some(i)) => integer_of(v@) == Some(Some(i as int)),
            Some(None) => integer_of(v@) == Some(None::<int>),
            None => integer_of(v@) is None,
        },
{
    match v {
        FhirPathValue::Empty => Some(None),
        FhirPathValue::Integer(i) => Some(Some(*i)),
        FhirPathValue::Collection(items) => {
            proof {
                lemma_value_models(items@);
            }
            if items.len() == 0 {
                Some(None)
            } else if items.len() == 1 {
                match &items[0] {
                    FhirPathValue::Integer(i) => Some(Some(*i)),
                    _ => None,
                }
            } else {
                None
            }
        },
        _ => None,
    }
}

/// Unary minus.
fn negate(v: &FhirPathValue) -> (r: FunctionResult<FhirPathValue>)
    ensures
        result_model(r) == negate_of(v@),
{
    match integer_value(v) {
        Some(None) => Ok(FhirPathValue::Empty),
        Some(Some(i)) => if i == i64::MIN {
            Err(
                FunctionError::TypeMismatch {
                    name: "-".to_string(),
                    message: "integer overflow".to_string(),
                },
            )
        } else {
            Ok(FhirPathValue::Integer(-i))
        },
        None => Err(
            FunctionError::TypeMismatch {
                name: "-".to_string(),
                message: "operand is not an integer".to_string(),
            },
        ),
    }
}

/// An error among the first arguments is the error of them all.
proof fn lemma_eval_args_error(
    args: Seq<Expression>,
    k: int,
    input: ValueModel,
    root: ValueModel,
    env: Seq<(Seq<char>, ValueModel)>,
    fs: Seq<BuiltinFunction>,
)
    requires
        0 <= k <= args.len(),
        eval_args(args.subrange(0, k), input, root, env, fs) is Err,
    ensures
        eval_args(args, input, root, env, fs) == eval_args(args.subrange(0, k), input, root, env, fs),
    decreases args.len() - k,
{
    if k < args.len() {
        let next = args.subrange(0, k + 1);
        assert(next.subrange(0, k) =~= args.subrange(0, k));
        lemma_eval_args_error(args, k + 1, input, root, env, fs);
    } else {
        assert(args.subrange(0, k) =~= args);
    }
}

/// Evaluates `expr` against `context`, calling functions from `registry`.
pub fn evaluate(expr: &Expression, context: &EvaluationContext, registry: &FunctionRegistry) -> (r:
    FunctionResult<FhirPathValue>)
    requires
        registry.wf(),
    ensures
        result_model(r) == eval(
            *expr,
            context.input@,
            context.root@,
            env_model(context.environment@),
            registry.functions(),
        ),
    decreases expr,
{
    match expr {
        Expression::Literal(v) => Ok(v.deep_clone()),
        Expression::This => Ok(context.input.deep_clone()),
        Expression::Variable(n) => match context.variable(n.as_str()) {
            Some(v) => Ok(v.deep_clone()),
            None => Ok(FhirPathValue::Empty),
        },
        Expression::Member(focus, name) => {
            let fv = match evaluate(focus, context, registry) {
                Ok(v) => v,
                Err(e) => return Err(e),
            };
            let mut out: Vec<FhirPathValue> = Vec::new();
            proof {
                assert(value_models(out@) == Seq::<ValueModel>::empty());
            }
            push_navigate(&fv, name.as_str(), &mut out);
            proof {
                assert(Seq::<ValueModel>::empty() + navigate(fv@, name@) =~= navigate(fv@, name@));
            }
            Ok(FhirPathValue::Collection(out))
        },
        Expression::Invocation(focus, name, args) => {
            let fv = match evaluate(focus, context, registry) {
                Ok(v) => v,
                Err(e) => return Err(e),
            };
            let inner = context.with_input(fv);
            let ghost env = env_model(context.environment@);
            let ghost fs = registry.functions();
            let mut vals: Vec<FhirPathValue> = Vec::new();
            proof {
                assert(args@.subrange(0, 0) =~= Seq::<Expression>::empty());
                assert(value_models(vals@) == Seq::<ValueModel>::empty());
            }
            let mut i: usize = 0;
            while i < args.len()
                invariant
                    *expr == Expression::Invocation(*focus, *name, *args),
                    registry.wf(),
                    fs == registry.functions(),
                    env == env_model(inner.environment@),
                    env == env_model(context.environment@),
                    inner.root@ == context.root@,
                    eval(**focus, context.input@, context.root@, env, fs) == Ok::<
                        ValueModel,
                        ErrorModel,
                    >(inner.input@),
                    i <= args.len(),
                    eval_args(args@.subrange(0, i as int), inner.input@, context.root@, env, fs)
                        == Ok::<Seq<ValueModel>, ErrorModel>(value_models(vals@)),
                decreases args.len() - i,
            {
                proof {
                    let ghost w = *args;
                    assert(decreases_to!(*expr => (*expr)->Invocation_2));
                    assert(decreases_to!(w => w@));
                    assert(decreases_to!(w@ => w@[i as int]));
                }
                let v = match evaluate(&args[i], &inner, registry) {
                    Ok(v) => v,
                    Err(e) => {
                        proof {
                            let s = args@.subrange(0, i + 1);
                            assert(s.subrange(0, i as int) =~= args@.subrange(0, i as int));
                            assert(s[i as int] == args@[i as int]);
                            lemma_eval_args_error(args@, i + 1, inner.input@, context.root@, env, fs);
                        }
                        return Err(e);
                    },
                };
                proof {
                    let s = args@.subrange(0, i + 1);
                    assert(s.subrange(0, i as int) =~= args@.subrange(0, i as int));
                    assert(s[i as int] == args@[i as int]);
                    lemma_value_models_push(vals@, v);
                }
                vals.push(v);
                i = i + 1;
            }
            proof {
                assert(args@.subrange(0, i as int) =~= args@);
                lemma_value_models(vals@);
            }
            registry.call(name.as_str(), vals.as_slice(), &inner)
        },
        Expression::And(l, r) => {
            let a = match evaluate(l, context, registry) {
                Ok(v) => v,
                Err(e) => return Err(e),
            };
            let b = match evaluate(r, context, registry) {
                Ok(v) => v,
                Err(e) => return Err(e),
            };
            match (boolean_value(&a), boolean_value(&b)) {
                (Some(x), Some(y)) => {
                    if x == Some(false) || y == Some(false) {
                        Ok(FhirPathValue::Boolean(false))
                    } else if x == Some(true) && y == Some(true) {
                        Ok(FhirPathValue::Boolean(true))
                    } else {
                        Ok(FhirPathValue::Empty)
                    }
                },
                _ => Err(
                    FunctionError::TypeMismatch {
                        name: "and".to_string(),
                        message: "operand is not a boolean".to_string(),
                    },
                ),
            }
        },
        Expression::Or(l, r) => {
            let a = match evaluate(l, context, registry) {
                Ok(v) => v,
                Err(e) => return Err(e),
            };
            let b = match evaluate(r, context, registry) {
                Ok(v) => v,
                Err(e) => return Err(e),
            };
            match (boolean_value(&a), boolean_value(&b)) {
                (Some(x), Some(y)) => {
                    if x == Some(true) || y == Some(true) {
                        Ok(FhirPathValue::Boolean(true))
                    } else if x == Some(false) && y == Some(false) {
                        Ok(FhirPathValue::Boolean(false))
                    } else {
                        Ok(FhirPathValue::Empty)
                    }
                },
                _ => Err(
                    FunctionError::TypeMismatch {
                        name: "or".to_string(),
                        message: "operand is not a boolean".to_string(),
                    },
                ),
            }
        },
        Expression::Negate(operand) => {
            let v = match evaluate(operand, context, registry) {
                Ok(v) => v,
                Err(e) => return Err(e),
            };
            negate(&v)
        },
    }
}

/// A value as the ordered sequence of results it stands for.
pub open spec fn as_sequence(v: ValueModel) -> Seq<ValueModel> {
    match v {
        ValueModel::Empty => Seq::empty(),
        ValueModel::Collection(items) => items,
        _ => seq![v],
    }
}

/// Evaluates `expr` with `root` as both the input and the root document, and
/// no environment; returns the results in order.
pub fn evaluate_root(expr: &Expression, root: FhirPathValue, registry: &FunctionRegistry) -> (r:
    FunctionResult<Vec<FhirPathValue>>)
    requires
        registry.wf(),
    ensures
        match eval(*expr, root@, root@, Seq::empty(), registry.functions()) {
            Ok(v) => r matches Ok(items) && value_models(items@) == as_sequence(v),
            Err(x) => r matches Err(e) && e@ == x,
        },
{
    let context = EvaluationContext::new(root);
    proof {
        assert(env_model(context.environment@) =~= Seq::<(Seq<char>, ValueModel)>::empty());
    }
    match evaluate(expr, &context, registry) {
        Err(e) => Err(e),
        Ok(FhirPathValue::Empty) => Ok(Vec::new()),
        Ok(FhirPathValue::Collection(items)) => Ok(items),
        Ok(single) => {
            let mut out: Vec<FhirPathValue> = Vec::new();
            proof {
                lemma_push_one(out@, single);
                assert(value_models(out@) =~= Seq::<ValueModel>::empty());
            }
            out.push(single);
            Ok(out)
        },
    }
}

} // verus!
