//! The fatal errors of a run.
//!
//! Every error aborts the run: there is no recovery path.  Each variant
//! carries the text (an identifier, a path, an expression) it is about.

use vstd::prelude::*;
use crate::text::{str_to_chars, chars_to_string, push_chars};

verus! {

/// A fatal interpreter error.
#[derive(Debug)]
pub enum BeanieError {
    /// An identifier in a math expression is not a parameter, built-in,
    /// constant or function of the context.
    UnknownIdentifier(String),
    /// The function named by a `Graph` operation does not exist.
    UnknownFunction(String),
    /// A function was applied with the wrong number of arguments, or a
    /// function name was used without an argument list.
    WrongArgumentCount(String),
    /// A constant name's position in its group is past the number of values
    /// its expression produced.
    AnswerOutOfRange(String),
    /// The numeric backend could not evaluate the resolved expression text.
    MathFailure(String),
    /// Constant or function resolution nested deeper than the engine allows.
    RecursionLimit,
    /// Two constants or functions share a name within one context.
    DuplicateName(String),
    /// An operation argument name is not recognized by that operation.
    UnknownArgument(String),
    /// An operation argument has the wrong expression type.
    ArgumentType(String),
    /// An `In` operation names an identifier that is not a declared input.
    InputNotDeclared(String),
    /// An `In` operation has no corresponding external parameter.
    MissingParameter(String),
    /// An imported program declares no output.
    NoOutput(String),
    /// An imported program declares more than one output.
    MultipleOutputs(String),
    /// A `Use` operation's target was not supplied to the run.
    MissingImport(String),
    /// An instruction's expression has a kind the instruction does not take.
    InvalidInstruction(String),
}

/// The ghost shape of an error: the variant plus the view of its text.
pub enum ErrorView {
    UnknownIdentifier(Seq<char>),
    UnknownFunction(Seq<char>),
    WrongArgumentCount(Seq<char>),
    AnswerOutOfRange(Seq<char>),
    MathFailure(Seq<char>),
    RecursionLimit,
    DuplicateName(Seq<char>),
    UnknownArgument(Seq<char>),
    ArgumentType(Seq<char>),
    InputNotDeclared(Seq<char>),
    MissingParameter(Seq<char>),
    NoOutput(Seq<char>),
    MultipleOutputs(Seq<char>),
    MissingImport(Seq<char>),
    InvalidInstruction(Seq<char>),
}

impl View for BeanieError {
    type V = ErrorView;

    open spec fn view(&self) -> ErrorView {
        match self {
            BeanieError::UnknownIdentifier(s) => ErrorView::UnknownIdentifier(s@),
            BeanieError::UnknownFunction(s) => ErrorView::UnknownFunction(s@),
            BeanieError::WrongArgumentCount(s) => ErrorView::WrongArgumentCount(s@),
            BeanieError::AnswerOutOfRange(s) => ErrorView::AnswerOutOfRange(s@),
            BeanieError::MathFailure(s) => ErrorView::MathFailure(s@),
            BeanieError::RecursionLimit => ErrorView::RecursionLimit,
            BeanieError::DuplicateName(s) => ErrorView::DuplicateName(s@),
            BeanieError::UnknownArgument(s) => ErrorView::UnknownArgument(s@),
            BeanieError::ArgumentType(s) => ErrorView::ArgumentType(s@),
            BeanieError::InputNotDeclared(s) => ErrorView::InputNotDeclared(s@),
            BeanieError::MissingParameter(s) => ErrorView::MissingParameter(s@),
            BeanieError::NoOutput(s) => ErrorView::NoOutput(s@),
            BeanieError::MultipleOutputs(s) => ErrorView::MultipleOutputs(s@),
            BeanieError::MissingImport(s) => ErrorView::MissingImport(s@),
            BeanieError::InvalidInstruction(s) => ErrorView::InvalidInstruction(s@),
        }
    }
}

impl ErrorView {
    /// The fixed label of each variant's diagnostic message.
    pub open spec fn spec_label(self) -> Seq<char> {
        match self {
            ErrorView::UnknownIdentifier(_) => "unknown identifier: "@,
            ErrorView::UnknownFunction(_) => "unknown function: "@,
            ErrorView::WrongArgumentCount(_) => "wrong number of arguments: "@,
            ErrorView::AnswerOutOfRange(_) => "no value at this name's position: "@,
            ErrorView::MathFailure(_) => "failed to evaluate: "@,
            ErrorView::RecursionLimit => "constants or functions nest too deeply"@,
            ErrorView::DuplicateName(_) => "can not have 2 functions or constants with the same name: "@,
            ErrorView::UnknownArgument(_) => "argument is not valid for this instruction: "@,
            ErrorView::ArgumentType(_) => "argument has the wrong type: "@,
            ErrorView::InputNotDeclared(_) => "failed to find input within the file context: "@,
            ErrorView::MissingParameter(_) => "there are more required inputs than the number of inputs given: "@,
            ErrorView::NoOutput(_) => "using a file but it has no output: "@,
            ErrorView::MultipleOutputs(_) => "using a file but it has more than one output: "@,
            ErrorView::MissingImport(_) => "failed to read file: "@,
            ErrorView::InvalidInstruction(_) => "instruction is not valid: "@,
        }
    }

    /// The text the error is about, empty when the variant carries none.
    pub open spec fn spec_subject(self) -> Seq<char> {
        match self {
            ErrorView::UnknownIdentifier(s) => s,
            ErrorView::UnknownFunction(s) => s,
            ErrorView::WrongArgumentCount(s) => s,
            ErrorView::AnswerOutOfRange(s) => s,
            ErrorView::MathFailure(s) => s,
            ErrorView::RecursionLimit => Seq::empty(),
            ErrorView::DuplicateName(s) => s,
            ErrorView::UnknownArgument(s) => s,
            ErrorView::ArgumentType(s) => s,
            ErrorView::InputNotDeclared(s) => s,
            ErrorView::MissingParameter(s) => s,
            ErrorView::NoOutput(s) => s,
            ErrorView::MultipleOutputs(s) => s,
            ErrorView::MissingImport(s) => s,
            ErrorView::InvalidInstruction(s) => s,
        }
    }
}

impl BeanieError {
    /// The diagnostic message for the error stream: label followed by subject.
    pub fn message(&self) -> (r: String)
        ensures
            r@ == self@.spec_label() + self@.spec_subject(),
    {
        let label: &str = match self {
            BeanieError::UnknownIdentifier(_) => "unknown identifier: ",
            BeanieError::UnknownFunction(_) => "unknown function: ",
            BeanieError::WrongArgumentCount(_) => "wrong number of arguments: ",
            BeanieError::AnswerOutOfRange(_) => "no value at this name's position: ",
            BeanieError::MathFailure(_) => "failed to evaluate: ",
            BeanieError::RecursionLimit => "constants or functions nest too deeply",
            BeanieError::DuplicateName(_) => "can not have 2 functions or constants with the same name: ",
            BeanieError::UnknownArgument(_) => "argument is not valid for this instruction: ",
            BeanieError::ArgumentType(_) => "argument has the wrong type: ",
            BeanieError::InputNotDeclared(_) => "failed to find input within the file context: ",
            BeanieError::MissingParameter(_) => "there are more required inputs than the number of inputs given: ",
            BeanieError::NoOutput(_) => "using a file but it has no output: ",
            BeanieError::MultipleOutputs(_) => "using a file but it has more than one output: ",
            BeanieError::MissingImport(_) => "failed to read file: ",
            BeanieError::InvalidInstruction(_) => "instruction is not valid: ",
        };
        let subject: Option<&String> = match self {
            BeanieError::UnknownIdentifier(s) => Some(s),
            BeanieError::UnknownFunction(s) => Some(s),
            BeanieError::WrongArgumentCount(s) => Some(s),
            BeanieError::AnswerOutOfRange(s) => Some(s),
            BeanieError::MathFailure(s) => Some(s),
            BeanieError::RecursionLimit => None,
            BeanieError::DuplicateName(s) => Some(s),
            BeanieError::UnknownArgument(s) => Some(s),
            BeanieError::ArgumentType(s) => Some(s),
            BeanieError::InputNotDeclared(s) => Some(s),
            BeanieError::MissingParameter(s) => Some(s),
            BeanieError::NoOutput(s) => Some(s),
            BeanieError::MultipleOutputs(s) => Some(s),
            BeanieError::MissingImport(s) => Some(s),
            BeanieError::InvalidInstruction(s) => Some(s),
        };
        let mut out = str_to_chars(label);
        match subject {
            Some(s) => {
                let tail = str_to_chars(s.as_str());
                push_chars(&mut out, &tail);
            },
            None => {
                proof {
                    assert(out@ =~= self@.spec_label() + self@.spec_subject());
                }
            },
        }
        chars_to_string(&out)
    }
}

} // verus!
