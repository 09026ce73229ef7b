//! The numeric backend: trusted calls into the math expression evaluator.
//!
//! The engine hands the backend a fully resolved, closed expression text —
//! every identifier left in it is a built-in — and receives the answers as
//! display strings, one per value.  What a given text evaluates to is named by
//! uninterpreted functions: the evaluator is deterministic, so the outcome is
//! a function of the text alone.

use vstd::prelude::*;
use crate::data_type::DataType;

verus! {

/// The answers of the double-precision float evaluator on a closed expression
/// text: `None` when parsing or evaluation fails.
pub uninterp spec fn decimal_eval(text: Seq<char>) -> Option<Seq<Seq<char>>>;

/// The single answer of the double-precision float evaluator rounded to the
/// nearest integer: `None` on failure or when there are several answers.
pub uninterp spec fn decimal_round_eval(text: Seq<char>) -> Option<i64>;

/// Relies on mexprp::eval_ctx at plain double precision (f64): parses and
/// evaluates the text with the default context; deterministic in the text.
/// Each answer is rendered by f64's Display.  The unused Num::from_f64 call
/// fixes the evaluation's number type to f64 through its argument.
#[verifier::external_body]
fn eval_decimal(text: &str) -> (r: Option<Vec<String>>)
    ensures
        r is Some <==> decimal_eval(text@) is Some,
        r matches Some(vs) ==> vs.deep_view() == decimal_eval(text@).unwrap(),
{
    let ctx = mexprp::Context::new();
    match mexprp::eval_ctx(text, &ctx) {
        Ok(answer) => {
            let values = answer.to_vec();
            if let Some(v) = values.first() {
                let _ = mexprp::num::Num::from_f64(*v, &ctx);
            }
            Some(values.into_iter().map(|n| n.to_string()).collect())
        }
        Err(_) => None,
    }
}

/// Relies on mexprp::eval at plain double precision (f64) and f64::round: the
/// single answer rounded to the nearest integer, `None` when evaluation fails
/// or the answer is not a single value.  The number type is fixed as in
/// eval_decimal.
#[verifier::external_body]
pub fn eval_decimal_round(text: &str) -> (r: Option<i64>)
    ensures
        r == decimal_round_eval(text@),
{
    let ctx = mexprp::Context::new();
    match mexprp::eval_ctx(text, &ctx) {
        Ok(mexprp::Answer::Single(v)) => {
            let _ = mexprp::num::Num::from_f64(v, &ctx);
            Some(v.round() as i64)
        }
        _ => None,
    }
}

/// What evaluating a closed text under a domain yields.  Only the plain
/// decimal backend is present: the complex and exact rational number types of
/// the evaluator sit behind its rug feature, whose GMP build this library
/// does not carry, so expressions under those three domains fail rather than
/// fall back to plain floats.  The irrational domain never reaches the
/// backend: its expressions echo their text unevaluated.
pub open spec fn spec_backend(domain: DataType, text: Seq<char>) -> Option<Seq<Seq<char>>> {
    match domain {
        DataType::Decimal => decimal_eval(text),
        DataType::ImaginaryDecimal => None,
        DataType::Rational => None,
        DataType::ComplexRational => None,
        DataType::Irrational => None,
    }
}

/// Evaluates a closed expression text under a numeric domain.
pub fn backend_eval(domain: DataType, text: &Vec<char>) -> (r: Option<Vec<String>>)
    ensures
        r is Some <==> spec_backend(domain, text@) is Some,
        r matches Some(vs) ==> vs.deep_view() == spec_backend(domain, text@).unwrap(),
{
    let s = crate::text::chars_to_string(text);
    match domain {
        DataType::Decimal => eval_decimal(s.as_str()),
        DataType::ImaginaryDecimal => None,
        DataType::Rational => None,
        DataType::ComplexRational => None,
        DataType::Irrational => None,
    }
}

} // verus!
