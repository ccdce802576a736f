//! What every built-in function shares: its signature, its errors, and the
//! evaluation context it runs against.

use crate::types::TypeInfo;
use crate::value::{FhirPathValue, ValueModel};
use vstd::prelude::*;

verus! {

/// Why a function call failed.
#[derive(Debug, PartialEq)]
pub enum FunctionError {
    /// No function of this name is registered.
    UnknownFunction { name: String },
    /// The number of arguments lies outside `[min, max]` (`max` None: unbounded).
    InvalidArity { name: String, min: usize, max: Option<usize>, actual: usize },
    /// An argument or the input has a shape the function cannot act on.
    TypeMismatch { name: String, message: String },
}

/// The mathematical value of a [`FunctionError`].
pub enum ErrorModel {
    UnknownFunction(Seq<char>),
    InvalidArity(Seq<char>, nat, Option<nat>, nat),
    TypeMismatch(Seq<char>, Seq<char>),
}

impl View for FunctionError {
    type V = ErrorModel;

    open spec fn view(&self) -> ErrorModel {
        match *self {
            FunctionError::UnknownFunction { name } => ErrorModel::UnknownFunction(name@),
            FunctionError::InvalidArity { name, min, max, actual } => ErrorModel::InvalidArity(
                name@,
                min as nat,
                match max {
                    Some(m) => Some(m as nat),
                    None => None,
                },
                actual as nat,
            ),
            FunctionError::TypeMismatch { name, message } => ErrorModel::TypeMismatch(
                name@,
                message@,
            ),
        }
    }
}

/// The view of a function result.
pub open spec fn result_model(r: FunctionResult<FhirPathValue>) -> Result<ValueModel, ErrorModel> {
    match r {
        Ok(v) => Ok(v@),
        Err(e) => Err(e@),
    }
}

/// The result of a function call.
pub type FunctionResult<T> = Result<T, FunctionError>;

/// Whether `e` is the arity error for a call of `name` with `actual` arguments
/// where `min` to `max` are accepted.
pub open spec fn is_arity_error(
    e: FunctionError,
    name: Seq<char>,
    min: nat,
    max: Option<nat>,
    actual: nat,
) -> bool {
    &&& e matches FunctionError::InvalidArity { name: n, min: lo, max: hi, actual: a }
    &&& n@ == name
    &&& lo == min
    &&& a == actual
    &&& match hi {
        Some(h) => max == Some(h as nat),
        None => max is None,
    }
}

/// Whether `e` reports the unknown function `name`.
pub open spec fn is_unknown_function(e: FunctionError, name: Seq<char>) -> bool {
    e matches FunctionError::UnknownFunction { name: n } && n@ == name
}

/// One declared parameter.
#[derive(Debug, PartialEq)]
pub struct ParameterInfo {
    pub type_info: TypeInfo,
    pub optional: bool,
}

/// A function's declared name, parameters and return type.
#[derive(Debug, PartialEq)]
pub struct FunctionSignature {
    pub name: String,
    pub parameters: Vec<ParameterInfo>,
    pub return_type: TypeInfo,
    /// Whether any number of arguments beyond the declared ones is accepted.
    pub variadic: bool,
}

/// The number of required parameters among `ps[0..n]`.
pub open spec fn required_count(ps: Seq<ParameterInfo>, n: int) -> nat
    decreases n,
{
    if n <= 0 {
        0
    } else {
        required_count(ps, n - 1) + if ps[n - 1].optional {
            0nat
        } else {
            1nat
        }
    }
}

impl FunctionSignature {
    /// The fewest arguments a call must pass.
    pub open spec fn min_arity_spec(&self) -> nat {
        required_count(self.parameters@, self.parameters@.len() as int)
    }

    /// The most arguments a call may pass; None when unbounded.
    pub open spec fn max_arity_spec(&self) -> Option<nat> {
        if self.variadic {
            None
        } else {
            Some(self.parameters@.len())
        }
    }

    /// A signature whose parameters are all required.
    pub fn new(name: &str, parameters: Vec<ParameterInfo>, return_type: TypeInfo) -> (r:
        FunctionSignature)
        ensures
            r.name@ == name@,
            r.parameters@ == parameters@,
            r.return_type == return_type,
            !r.variadic,
    {
        FunctionSignature { name: name.to_string(), parameters, return_type, variadic: false }
    }

    /// The fewest arguments a call must pass.
    pub fn min_arity(&self) -> (r: usize)
        ensures
            r == self.min_arity_spec(),
    {
        let mut n: usize = 0;
        let mut i: usize = 0;
        while i < self.parameters.len()
            invariant
                i <= self.parameters.len(),
                n == required_count(self.parameters@, i as int),
                n <= i,
            decreases self.parameters.len() - i,
        {
            if !self.parameters[i].optional {
                n = n + 1;
            }
            i = i + 1;
        }
        n
    }

    /// The most arguments a call may pass; None when unbounded.
    pub fn max_arity(&self) -> (r: Option<usize>)
        ensures
            match r {
                Some(m) => self.max_arity_spec() == Some(m as nat),
                None => self.max_arity_spec() is None,
            },
    {
        if self.variadic {
            None
        } else {
            Some(self.parameters.len())
        }
    }

    /// Checks that `actual` arguments fit this signature.
    pub fn check_arity(&self, actual: usize) -> (r: FunctionResult<()>)
        ensures
            r is Ok <==> (self.min_arity_spec() <= actual && match self.max_arity_spec() {
                Some(m) => actual <= m,
                None => true,
            }),
            r matches Err(e) ==> is_arity_error(
                e,
                self.name@,
                self.min_arity_spec(),
                self.max_arity_spec(),
                actual as nat,
            ),
    {
        let min = self.min_arity();
        let max = self.max_arity();
        let too_many = match max {
            Some(m) => actual > m,
            None => false,
        };
        if actual < min || too_many {
            Err(FunctionError::InvalidArity { name: self.name.clone(), min, max, actual })
        } else {
            Ok(())
        }
    }
}

/// What an evaluation step runs against: the current input, the document the
/// whole evaluation started from, and the named environment variables.
#[derive(Debug, PartialEq)]
pub struct EvaluationContext {
    pub input: FhirPathValue,
    pub root: FhirPathValue,
    pub environment: Vec<(String, FhirPathValue)>,
}

/// The view of an environment: names and values.
pub open spec fn env_model(env: Seq<(String, FhirPathValue)>) -> Seq<(Seq<char>, ValueModel)> {
    Seq::new(env.len(), |i: int| (env[i].0@, env[i].1@))
}

/// The value of the first binding of `name` in `env`, from position `i` on.
pub open spec fn env_find(env: Seq<(Seq<char>, ValueModel)>, name: Seq<char>, i: int) -> Option<
    ValueModel,
>
    decreases env.len() - i,
{
    if i < 0 || i >= env.len() {
        None
    } else if env[i].0 == name {
        Some(env[i].1)
    } else {
        env_find(env, name, i + 1)
    }
}

/// Whether two environments bind the same names to the same values.
pub open spec fn same_environment(a: Seq<(String, FhirPathValue)>, b: Seq<(String, FhirPathValue)>) -> bool {
    &&& a.len() == b.len()
    &&& forall|i: int| 0 <= i < a.len() ==> (#[trigger] a[i]).0@ == b[i].0@ && a[i].1@ == b[i].1@
}

impl EvaluationContext {
    /// The context at the top of an evaluation: `root` is both the input and
    /// the root document.
    pub fn new(root: FhirPathValue) -> (r: EvaluationContext)
        ensures
            r.input@ == root@,
            r.root@ == root@,
            r.environment@.len() == 0,
    {
        let input = root.deep_clone();
        EvaluationContext { input, root, environment: Vec::new() }
    }

    /// The same context with another input; root and environment are kept.
    pub fn with_input(&self, input: FhirPathValue) -> (r: EvaluationContext)
        ensures
            r.input@ == input@,
            r.root@ == self.root@,
            same_environment(r.environment@, self.environment@),
            env_model(r.environment@) == env_model(self.environment@),
    {
        let mut environment: Vec<(String, FhirPathValue)> = Vec::new();
        let mut i: usize = 0;
        while i < self.environment.len()
            invariant
                i <= self.environment.len(),
                same_environment(environment@, self.environment@.subrange(0, i as int)),
            decreases self.environment.len() - i,
        {
            let entry = (self.environment[i].0.clone(), self.environment[i].1.deep_clone());
            environment.push(entry);
            i = i + 1;
        }
        assert(self.environment@.subrange(0, i as int) =~= self.environment@);
        assert(env_model(environment@) =~= env_model(self.environment@));
        EvaluationContext { input, root: self.root.deep_clone(), environment }
    }

    /// The value bound to the variable `name`, the first binding winning.
    pub fn variable(&self, name: &str) -> (r: Option<&FhirPathValue>)
        ensures
            match r {
                Some(v) => exists|i: int|
                    0 <= i < self.environment@.len() && (#[trigger] self.environment@[i]).0@
                        == name@ && self.environment@[i].1 == *v && forall|k: int|
                        0 <= k < i ==> (#[trigger] self.environment@[k]).0@ != name@,
                None => forall|i: int|
                    0 <= i < self.environment@.len() ==> (#[trigger] self.environment@[i]).0@
                        != name@,
            },
            match r {
                Some(v) => env_find(env_model(self.environment@), name@, 0) == Some(v@),
                None => env_find(env_model(self.environment@), name@, 0) is None,
            },
    {
        let mut i: usize = 0;
        while i < self.environment.len()
            invariant
                i <= self.environment.len(),
                forall|k: int| 0 <= k < i ==> (#[trigger] self.environment@[k]).0@ != name@,
                env_find(env_model(self.environment@), name@, 0) == env_find(
                    env_model(self.environment@),
                    name@,
                    i as int,
                ),
            decreases self.environment.len() - i,
        {
            if crate::text::same_text(self.environment[i].0.as_str(), name) {
                return Some(&self.environment[i].1);
            }
            i = i + 1;
        }
        None
    }

    /// Adds (or shadows) the binding of `name`.
    pub fn bind(&mut self, name: &str, value: FhirPathValue)
        ensures
            final(self).input == old(self).input,
            final(self).root == old(self).root,
            final(self).environment@ == seq![(final(self).environment@[0].0, value)] + old(
                self,
            ).environment@,
            final(self).environment@[0].0@ == name@,
    {
        self.environment.insert(0, (name.to_string(), value));
        assert(self.environment@ =~= seq![(self.environment@[0].0, value)] + old(self).environment@);
    }
}

} // verus!
