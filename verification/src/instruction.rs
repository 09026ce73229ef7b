//! Instructions: the parsed statements of a program, before contextualizing.

use vstd::prelude::*;
use crate::expression::BeanieExpression;

verus! {

/// The kind of operation an instruction stands for.
#[derive(Clone, Copy, Debug, PartialEq, Eq, Structural)]
pub enum OperationType {
    Use,
    In,
    Out,
    Graph,
    Print,
}

/// One parsed statement: its kind, its expression, and the keyword arguments
/// that followed it in the source.  Arguments attach to whichever instruction
/// was most recently appended while a program is built, so they sit directly
/// on the instruction record.
#[derive(Debug)]
pub struct Instruction {
    pub operation_type: OperationType,
    pub expression: BeanieExpression,
    pub arguments: Vec<(String, BeanieExpression)>,
}

impl Instruction {
    /// An instruction with no arguments yet.
    pub fn new(operation_type: OperationType, expression: BeanieExpression) -> (r: Instruction)
        ensures
            r.operation_type == operation_type,
            r.expression == expression,
            r.arguments@ =~= Seq::<(String, BeanieExpression)>::empty(),
    {
        Instruction { operation_type, expression, arguments: Vec::new() }
    }

    /// Records one keyword argument; validation happens when the instruction
    /// is turned into an operation.
    pub fn add_argument(&mut self, name: String, expression: BeanieExpression)
        ensures
            final(self).operation_type == old(self).operation_type,
            final(self).expression == old(self).expression,
            final(self).arguments@ == old(self).arguments@.push((name, expression)),
    {
        self.arguments.push((name, expression));
    }
}

} // verus!
