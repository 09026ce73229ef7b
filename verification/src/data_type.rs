//! The numeric domain tag attached to every math expression.

use vstd::prelude::*;
use crate::text::str_to_chars;

verus! {

/// The five numeric domains an expression can be evaluated under.
///
/// `Decimal` is double-precision floating point, `ImaginaryDecimal` a complex
/// float pair, `Rational` an exact fraction, `ComplexRational` a complex pair
/// of exact fractions, and `Irrational` leaves the expression text unevaluated.
#[derive(Clone, Copy, Debug, PartialEq, Eq, Structural)]
pub enum DataType {
    Decimal,
    ImaginaryDecimal,
    Rational,
    ComplexRational,
    Irrational,
}

/// The source keyword that selects each domain.
pub open spec fn spec_keyword(d: DataType) -> Seq<char> {
    match d {
        DataType::Decimal => seq!['d', 'e', 'c', 'i', 'm', 'a', 'l'],
        DataType::ImaginaryDecimal => seq!['i', 'd', 'e', 'c', 'i', 'm', 'a', 'l'],
        DataType::Rational => seq!['f', 'r', 'a', 'c'],
        DataType::ComplexRational => seq!['i', 'f', 'r', 'a', 'c'],
        DataType::Irrational => seq!['i', 'r', 'r', 'a', 't', 'i', 'o', 'n', 'a', 'l'],
    }
}

/// The domain selected by a keyword, if any.
pub open spec fn spec_from_keyword(s: Seq<char>) -> Option<DataType> {
    if s == spec_keyword(DataType::Decimal) {
        Some(DataType::Decimal)
    } else if s == spec_keyword(DataType::ImaginaryDecimal) {
        Some(DataType::ImaginaryDecimal)
    } else if s == spec_keyword(DataType::Rational) {
        Some(DataType::Rational)
    } else if s == spec_keyword(DataType::ComplexRational) {
        Some(DataType::ComplexRational)
    } else if s == spec_keyword(DataType::Irrational) {
        Some(DataType::Irrational)
    } else {
        None
    }
}

impl DataType {
    /// The keyword that names this domain in source text.
    pub fn keyword(&self) -> (r: String)
        ensures
            r@ == spec_keyword(*self),
    {
        let lit = match self {
            DataType::Decimal => "decimal",
            DataType::ImaginaryDecimal => "idecimal",
            DataType::Rational => "frac",
            DataType::ComplexRational => "ifrac",
            DataType::Irrational => "irrational",
        };
        proof {
            reveal_strlit("decimal");
            reveal_strlit("idecimal");
            reveal_strlit("frac");
            reveal_strlit("ifrac");
            reveal_strlit("irrational");
            assert("decimal"@ =~= spec_keyword(DataType::Decimal));
            assert("idecimal"@ =~= spec_keyword(DataType::ImaginaryDecimal));
            assert("frac"@ =~= spec_keyword(DataType::Rational));
            assert("ifrac"@ =~= spec_keyword(DataType::ComplexRational));
            assert("irrational"@ =~= spec_keyword(DataType::Irrational));
        }
        lit.to_owned()
    }

    fn keyword_matches(self, s: &Vec<char>) -> (r: bool)
        ensures
            r == (s@ == spec_keyword(self)),
    {
        let kw = self.keyword();
        let kw_chars = str_to_chars(kw.as_str());
        crate::text::chars_eq(s, &kw_chars)
    }

    /// Parses a domain keyword; `None` when the text names no domain.
    pub fn from_keyword(s: &str) -> (r: Option<DataType>)
        ensures
            r == spec_from_keyword(s@),
    {
        let chars = str_to_chars(s);
        if DataType::Decimal.keyword_matches(&chars) {
            Some(DataType::Decimal)
        } else if DataType::ImaginaryDecimal.keyword_matches(&chars) {
            Some(DataType::ImaginaryDecimal)
        } else if DataType::Rational.keyword_matches(&chars) {
            Some(DataType::Rational)
        } else if DataType::ComplexRational.keyword_matches(&chars) {
            Some(DataType::ComplexRational)
        } else if DataType::Irrational.keyword_matches(&chars) {
            Some(DataType::Irrational)
        } else {
            None
        }
    }
}

} // verus!
