//! Expressions: the unit the interpreter passes around.

use vstd::prelude::*;
use crate::data_type::DataType;

verus! {

/// The kind of an expression, used to check operation arguments.
#[derive(Clone, Copy, Debug, PartialEq, Eq, Structural)]
pub enum ExpressionType {
    MathExpression,
    FilePath,
    Boolean,
    DataType,
    StringLiteral,
}

/// An expression as the parser hands it over.
///
/// `Math` carries the raw expression text together with the numeric domain it
/// is to be evaluated under.  `SimpleNumber` is a ready integer value, used
/// for the default arguments of `Graph`.
#[derive(Debug)]
pub enum BeanieExpression {
    Math(String, DataType),
    SimpleNumber(i64),
    Boolean(bool),
    FilePath(String),
    StringLiteral(String),
}

/// The kind of each expression variant.
pub open spec fn spec_expression_type(e: BeanieExpression) -> ExpressionType {
    match e {
        BeanieExpression::Math(_, _) => ExpressionType::MathExpression,
        BeanieExpression::SimpleNumber(_) => ExpressionType::MathExpression,
        BeanieExpression::Boolean(_) => ExpressionType::Boolean,
        BeanieExpression::FilePath(_) => ExpressionType::FilePath,
        BeanieExpression::StringLiteral(_) => ExpressionType::StringLiteral,
    }
}

/// True for the variants the numeric engine can evaluate.
pub open spec fn spec_numeric(e: BeanieExpression) -> bool {
    e matches BeanieExpression::Math(_, _) || e matches BeanieExpression::SimpleNumber(_)
        || e matches BeanieExpression::Boolean(_)
}

impl BeanieExpression {
    /// The math text of a `Math` expression, `None` for every other variant.
    pub fn get_math(&self) -> (r: Option<String>)
        ensures
            match r {
                Some(s) => self matches BeanieExpression::Math(t, _) && s@ == t@,
                None => !(self matches BeanieExpression::Math(_, _)),
            },
    {
        match self {
            BeanieExpression::Math(text, _) => Some(text.clone()),
            _ => None,
        }
    }

    /// The kind of this expression.
    pub fn get_type(&self) -> (r: ExpressionType)
        ensures
            r == spec_expression_type(*self),
    {
        match self {
            BeanieExpression::Math(_, _) => ExpressionType::MathExpression,
            BeanieExpression::SimpleNumber(_) => ExpressionType::MathExpression,
            BeanieExpression::Boolean(_) => ExpressionType::Boolean,
            BeanieExpression::FilePath(_) => ExpressionType::FilePath,
            BeanieExpression::StringLiteral(_) => ExpressionType::StringLiteral,
        }
    }

    /// An exact copy of this expression.
    pub fn duplicate(&self) -> (r: BeanieExpression)
        ensures
            r == *self,
    {
        match self {
            BeanieExpression::Math(text, d) => BeanieExpression::Math(text.clone(), *d),
            BeanieExpression::SimpleNumber(n) => BeanieExpression::SimpleNumber(*n),
            BeanieExpression::Boolean(b) => BeanieExpression::Boolean(*b),
            BeanieExpression::FilePath(p) => BeanieExpression::FilePath(p.clone()),
            BeanieExpression::StringLiteral(s) => BeanieExpression::StringLiteral(s.clone()),
        }
    }
}

} // verus!
