//! User-declared and imported functions.

use vstd::prelude::*;
use crate::expression::BeanieExpression;
use crate::context::BeanieRuntimeContext;

verus! {

/// A callable: ordered parameter names and a body expression.
///
/// A function made by `Use` additionally carries the imported program's whole
/// runtime context; free identifiers of its body resolve only against that
/// foreign context and the call's own parameter bindings, never against the
/// caller's context.
#[derive(Debug)]
pub struct Function {
    pub name: String,
    pub parameters: Vec<String>,
    pub expression: BeanieExpression,
    pub external_context: Option<Box<BeanieRuntimeContext>>,
}

impl Function {
    /// A plain (not imported) function.
    pub fn new(name: String, parameters: Vec<String>, expression: BeanieExpression) -> (r:
        Function)
        ensures
            r.name == name,
            r.parameters == parameters,
            r.expression == expression,
            r.external_context is None,
    {
        Function { name, parameters, expression, external_context: None }
    }
}

} // verus!
