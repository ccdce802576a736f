//! A FHIRPath-style expression engine core: a value model over JSON-shaped
//! clinical documents, an evaluation context, a registry of built-in
//! functions, and the `resolve()` reference-resolution algorithm.

pub mod evaluator;
pub mod function;
pub mod json;
pub mod registry;
pub mod resolve;
pub mod text;
pub mod types;
pub mod value;

pub use evaluator::{evaluate, evaluate_root, Expression};
pub use function::{EvaluationContext, FunctionError, FunctionResult, FunctionSignature, ParameterInfo};
pub use json::Json;
pub use registry::{BuiltinFunction, FunctionRegistry, RegistryError};
pub use resolve::ResolveFunction;
pub use types::TypeInfo;
pub use value::{FhirPathValue, FhirResource};
