//! The registry of built-in functions: lookup by name and dispatch.

use crate::function::{
    is_arity_error, is_unknown_function, result_model, ErrorModel, EvaluationContext, FunctionError, FunctionResult,
    FunctionSignature,
};
use crate::resolve::{resolve_result, ResolveFunction};
use crate::text::same_text;
use crate::value::{FhirPathValue, ValueModel};
use vstd::prelude::*;

verus! {

/// The built-in functions the engine knows.
#[derive(Debug, PartialEq)]
pub enum BuiltinFunction {
    Resolve(ResolveFunction),
}

/// The registry key of a built-in.
pub open spec fn builtin_name(f: BuiltinFunction) -> Seq<char> {
    match f {
        BuiltinFunction::Resolve(_) => "resolve"@,
    }
}

/// What calling the built-in `f` with `args` in `context` returns.
pub open spec fn builtin_outcome(
    f: BuiltinFunction,
    args: Seq<FhirPathValue>,
    context: EvaluationContext,
    r: FunctionResult<FhirPathValue>,
) -> bool {
    match f {
        BuiltinFunction::Resolve(_) => {
            &&& args.len() != 0 ==> (r matches Err(e) && is_arity_error(
                e,
                "resolve"@,
                0,
                Some(0),
                args.len(),
            ))
            &&& args.len() == 0 ==> (r matches Ok(v) && v@ == resolve_result(
                context.input@,
                context.root@,
            ))
        },
    }
}

/// What the built-in `f` returns when called with `n` arguments on `input`
/// against `root`.
pub open spec fn builtin_result(f: BuiltinFunction, n: nat, input: ValueModel, root: ValueModel) -> Result<
    ValueModel,
    ErrorModel,
> {
    match f {
        BuiltinFunction::Resolve(_) => if n != 0 {
            Err(ErrorModel::InvalidArity("resolve"@, 0, Some(0), n))
        } else {
            Ok(resolve_result(input, root))
        },
    }
}

/// The first function of `fs`, from position `i` on, named `name`.
pub open spec fn find_function(fs: Seq<BuiltinFunction>, name: Seq<char>, i: int) -> Option<
    BuiltinFunction,
>
    decreases fs.len() - i,
{
    if i < 0 || i >= fs.len() {
        None
    } else if builtin_name(fs[i]) == name {
        Some(fs[i])
    } else {
        find_function(fs, name, i + 1)
    }
}

/// What calling `name` with `n` arguments returns in a registry holding `fs`.
pub open spec fn call_result(
    fs: Seq<BuiltinFunction>,
    name: Seq<char>,
    n: nat,
    input: ValueModel,
    root: ValueModel,
) -> Result<ValueModel, ErrorModel> {
    match find_function(fs, name, 0) {
        Some(f) => builtin_result(f, n, input, root),
        None => Err(ErrorModel::UnknownFunction(name)),
    }
}

/// Calling a name that no registered function has always gives
/// `UnknownFunction` for that name, whatever the arguments and input.
pub proof fn lemma_unknown_name_is_unknown_function(
    fs: Seq<BuiltinFunction>,
    name: Seq<char>,
    n: nat,
    input: ValueModel,
    root: ValueModel,
)
    requires
        forall|i: int| 0 <= i < fs.len() ==> builtin_name(#[trigger] fs[i]) != name,
    ensures
        call_result(fs, name, n, input, root) == Err::<ValueModel, ErrorModel>(
            ErrorModel::UnknownFunction(name),
        ),
{
    lemma_find_absent(fs, name, 0);
}

proof fn lemma_find_absent(fs: Seq<BuiltinFunction>, name: Seq<char>, i: int)
    requires
        0 <= i,
        forall|k: int| 0 <= k < fs.len() ==> builtin_name(#[trigger] fs[k]) != name,
    ensures
        find_function(fs, name, i) is None,
    decreases fs.len() - i,
{
    if i < fs.len() {
        lemma_find_absent(fs, name, i + 1);
    }
}

impl BuiltinFunction {
    /// The registry key.
    pub fn name(&self) -> (r: &'static str)
        ensures
            r@ == builtin_name(*self),
    {
        match self {
            BuiltinFunction::Resolve(f) => f.name(),
        }
    }

    /// The declared signature.
    pub fn signature(&self) -> (r: FunctionSignature)
        ensures
            r.name@ == builtin_name(*self),
    {
        match self {
            BuiltinFunction::Resolve(f) => f.signature(),
        }
    }

    /// Runs the function on `args` against `context`.
    pub fn evaluate(&self, args: &[FhirPathValue], context: &EvaluationContext) -> (r:
        FunctionResult<FhirPathValue>)
        ensures
            builtin_outcome(*self, args@, *context, r),
            result_model(r) == builtin_result(*self, args@.len(), context.input@, context.root@),
    {
        match self {
            BuiltinFunction::Resolve(f) => f.evaluate(args, context),
        }
    }
}

/// Why a registration was refused.
#[derive(Clone, Copy, Debug, PartialEq, Eq)]
pub enum RegistryError {
    /// A function of this name is already registered.
    DuplicateName,
    /// The registry is frozen: evaluation has begun.
    Frozen,
}

/// The functions an evaluation may call, by name. Names are unique; once
/// frozen, nothing more can be registered.
pub struct FunctionRegistry {
    functions: Vec<BuiltinFunction>,
    frozen: bool,
}

/// Whether `names` holds no name twice.
pub open spec fn distinct_names(fs: Seq<BuiltinFunction>) -> bool {
    forall|i: int, j: int|
        0 <= i < j < fs.len() ==> builtin_name(#[trigger] fs[i]) != builtin_name(#[trigger] fs[j])
}

impl FunctionRegistry {
    /// The registered functions, in order of registration.
    pub closed spec fn functions(&self) -> Seq<BuiltinFunction> {
        self.functions@
    }

    /// Whether registration is closed.
    pub closed spec fn is_frozen(&self) -> bool {
        self.frozen
    }

    /// Whether a function named `name` is registered.
    pub open spec fn has_name(&self, name: Seq<char>) -> bool {
        exists|i: int| 0 <= i < self.functions().len() && builtin_name(#[trigger] self.functions()[i]) == name
    }

    /// The registry's invariant.
    pub open spec fn wf(&self) -> bool {
        distinct_names(self.functions())
    }

    /// An empty, open registry.
    pub fn new() -> (r: FunctionRegistry)
        ensures
            r.wf(),
            r.functions().len() == 0,
            !r.is_frozen(),
    {
        FunctionRegistry { functions: Vec::new(), frozen: false }
    }

    /// A registry holding every built-in, frozen.
    pub fn with_builtins() -> (r: FunctionRegistry)
        ensures
            r.wf(),
            r.is_frozen(),
            r.has_name("resolve"@),
    {
        let mut r = FunctionRegistry::new();
        let _ = r.register(BuiltinFunction::Resolve(ResolveFunction));
        assert(builtin_name(r.functions()[0]) == "resolve"@);
        r.freeze();
        r
    }

    /// Closes registration.
    pub fn freeze(&mut self)
        ensures
            final(self).functions() == old(self).functions(),
            final(self).is_frozen(),
    {
        self.frozen = true;
    }

    /// Adds `f`, unless the registry is frozen or already has its name.
    pub fn register(&mut self, f: BuiltinFunction) -> (r: Result<(), RegistryError>)
        requires
            old(self).wf(),
        ensures
            final(self).wf(),
            final(self).is_frozen() == old(self).is_frozen(),
            old(self).is_frozen() ==> r matches Err(RegistryError::Frozen),
            !old(self).is_frozen() && old(self).has_name(builtin_name(f)) ==> r matches Err(
                RegistryError::DuplicateName,
            ),
            r is Ok <==> !old(self).is_frozen() && !old(self).has_name(builtin_name(f)),
            r is Ok ==> final(self).functions() == old(self).functions().push(f),
            r is Err ==> final(self).functions() == old(self).functions(),
    {
        if self.frozen {
            return Err(RegistryError::Frozen);
        }
        match self.find(f.name()) {
            Some(_) => Err(RegistryError::DuplicateName),
            None => {
                let ghost before = self.functions@;
                self.functions.push(f);
                assert forall|i: int, j: int|
                    0 <= i < j < self.functions@.len() implies builtin_name(
                    #[trigger] self.functions@[i],
                ) != builtin_name(#[trigger] self.functions@[j]) by {
                    if j == before.len() {
                        assert(self.functions@[i] == before[i]);
                    }
                }
                Ok(())
            },
        }
    }

    /// The position of the function named `name`.
    fn find(&self, name: &str) -> (r: Option<usize>)
        ensures
            match r {
                Some(i) => i < self.functions().len() && builtin_name(self.functions()[i as int])
                    == name@,
                None => !self.has_name(name@),
            },
            match r {
                Some(i) => find_function(self.functions(), name@, 0) == Some(
                    self.functions()[i as int],
                ),
                None => find_function(self.functions(), name@, 0) is None,
            },
    {
        let mut i: usize = 0;
        while i < self.functions.len()
            invariant
                i <= self.functions.len(),
                forall|k: int| 0 <= k < i ==> builtin_name(#[trigger] self.functions@[k]) != name@,
                find_function(self.functions(), name@, 0) == find_function(
                    self.functions(),
                    name@,
                    i as int,
                ),
            decreases self.functions.len() - i,
        {
            if same_text(self.functions[i].name(), name) {
                return Some(i);
            }
            i = i + 1;
        }
        None
    }

    /// The function registered under `name`.
    pub fn lookup(&self, name: &str) -> (r: Option<&BuiltinFunction>)
        ensures
            match r {
                Some(f) => self.has_name(name@) && builtin_name(*f) == name@,
                None => !self.has_name(name@),
            },
    {
        match self.find(name) {
            Some(i) => Some(&self.functions[i]),
            None => None,
        }
    }

    /// Calls the function registered under `name`. An unknown name gives
    /// `UnknownFunction`; otherwise the function runs (and checks its arity).
    pub fn call(&self, name: &str, args: &[FhirPathValue], context: &EvaluationContext) -> (r:
        FunctionResult<FhirPathValue>)
        requires
            self.wf(),
        ensures
            !self.has_name(name@) ==> (r matches Err(e) && is_unknown_function(e, name@)),
            self.has_name(name@) ==> exists|i: int|
                0 <= i < self.functions().len() && builtin_name(#[trigger] self.functions()[i])
                    == name@ && builtin_outcome(self.functions()[i], args@, *context, r),
            result_model(r) == call_result(
                self.functions(),
                name@,
                args@.len(),
                context.input@,
                context.root@,
            ),
    {
        match self.find(name) {
            Some(i) => self.functions[i].evaluate(args, context),
            None => Err(FunctionError::UnknownFunction { name: name.to_string() }),
        }
    }
}

} // verus!
