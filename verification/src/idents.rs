//! Identifier tokens inside math expression text.
//!
//! An identifier starts with a letter and continues with letters, digits and
//! underscores, taken as long as possible.  Name resolution, hygiene suffixing
//! and function-call inlining all walk expression text token by token with the
//! functions of this module.

use vstd::prelude::*;
use crate::text::{str_to_chars, chars_eq};

verus! {

/// True for the characters that can start an identifier.
pub open spec fn is_ident_start(c: char) -> bool {
    ('a' <= c && c <= 'z') || ('A' <= c && c <= 'Z')
}

/// True for the characters that can continue an identifier.
pub open spec fn is_ident_char(c: char) -> bool {
    is_ident_start(c) || ('0' <= c && c <= '9') || c == '_'
}

/// Decides `is_ident_start`.
pub fn ident_start_char(c: char) -> (r: bool)
    ensures
        r == is_ident_start(c),
{
    ('a' <= c && c <= 'z') || ('A' <= c && c <= 'Z')
}

/// Decides `is_ident_char`.
pub fn ident_char(c: char) -> (r: bool)
    ensures
        r == is_ident_char(c),
{
    ident_start_char(c) || ('0' <= c && c <= '9') || c == '_'
}

/// The position just past the identifier characters running from `i`.
pub open spec fn ident_end(text: Seq<char>, i: int) -> int
    decreases text.len() - i when 0 <= i <= text.len()
{
    if i < text.len() && is_ident_char(text[i]) {
        ident_end(text, i + 1)
    } else {
        i
    }
}

/// What `ident_end` yields: a maximal run of identifier characters.
pub proof fn lemma_ident_end(text: Seq<char>, i: int)
    requires
        0 <= i <= text.len(),
    ensures
        i <= ident_end(text, i) <= text.len(),
        forall|k: int| i <= k < ident_end(text, i) ==> is_ident_char(text[k]),
        ident_end(text, i) < text.len() ==> !is_ident_char(text[ident_end(text, i)]),
    decreases text.len() - i,
{
    if i < text.len() && is_ident_char(text[i]) {
        lemma_ident_end(text, i + 1);
    }
}

/// Finds the end of the identifier-character run starting at `i`.
pub fn scan_ident_end(text: &Vec<char>, i: usize) -> (j: usize)
    requires
        i <= text@.len(),
    ensures
        j == ident_end(text@, i as int),
        i <= j <= text@.len(),
{
    proof {
        lemma_ident_end(text@, i as int);
    }
    let mut j: usize = i;
    while j < text.len() && ident_char(text[j])
        invariant
            i <= j <= text@.len(),
            ident_end(text@, i as int) == ident_end(text@, j as int),
        decreases text@.len() - j,
    {
        j = j + 1;
    }
    j
}

/// The built-in constant and function names of the numeric backend: these are
/// always available, are never suffixed and can not be shadowed by constants
/// or functions of the context.
pub open spec fn is_builtin(name: Seq<char>) -> bool {
    ||| name == "pi"@
    ||| name == "e"@
    ||| name == "i"@
    ||| name == "sin"@
    ||| name == "cos"@
    ||| name == "tan"@
    ||| name == "asin"@
    ||| name == "acos"@
    ||| name == "atan"@
    ||| name == "atant"@
    ||| name == "max"@
    ||| name == "min"@
    ||| name == "sqrt"@
    ||| name == "nrt"@
    ||| name == "abs"@
    ||| name == "floor"@
    ||| name == "round"@
    ||| name == "log"@
}

/// Decides whether a name is a built-in of the numeric backend.
pub fn builtin_name(name: &Vec<char>) -> (r: bool)
    ensures
        r == is_builtin(name@),
{
    if chars_eq(name, &str_to_chars("pi")) {
        return true;
    }
    if chars_eq(name, &str_to_chars("e")) {
        return true;
    }
    if chars_eq(name, &str_to_chars("i")) {
        return true;
    }
    if chars_eq(name, &str_to_chars("sin")) {
        return true;
    }
    if chars_eq(name, &str_to_chars("cos")) {
        return true;
    }
    if chars_eq(name, &str_to_chars("tan")) {
        return true;
    }
    if chars_eq(name, &str_to_chars("asin")) {
        return true;
    }
    if chars_eq(name, &str_to_chars("acos")) {
        return true;
    }
    if chars_eq(name, &str_to_chars("atan")) {
        return true;
    }
    if chars_eq(name, &str_to_chars("atant")) {
        return true;
    }
    if chars_eq(name, &str_to_chars("max")) {
        return true;
    }
    if chars_eq(name, &str_to_chars("min")) {
        return true;
    }
    if chars_eq(name, &str_to_chars("sqrt")) {
        return true;
    }
    if chars_eq(name, &str_to_chars("nrt")) {
        return true;
    }
    if chars_eq(name, &str_to_chars("abs")) {
        return true;
    }
    if chars_eq(name, &str_to_chars("floor")) {
        return true;
    }
    if chars_eq(name, &str_to_chars("round")) {
        return true;
    }
    if chars_eq(name, &str_to_chars("log")) {
        return true;
    }
    false
}

/// A user name rewritten by hygiene: the name, an underscore, the suffix.
/// An empty suffix leaves the name unchanged.
pub open spec fn spec_suffixed(name: Seq<char>, suffix: Seq<char>) -> Seq<char> {
    if suffix.len() == 0 {
        name
    } else {
        name + seq!['_'] + suffix
    }
}

/// Appends `_suffix` to a name; an empty suffix leaves it unchanged.
pub fn add_suffix(name: &Vec<char>, suffix: &Vec<char>) -> (r: Vec<char>)
    ensures
        r@ == spec_suffixed(name@, suffix@),
{
    let mut out: Vec<char> = Vec::new();
    crate::text::push_chars(&mut out, name);
    if suffix.len() > 0 {
        out.push('_');
        crate::text::push_chars(&mut out, suffix);
        assert(out@ =~= name@ + seq!['_'] + suffix@);
    } else {
        assert(out@ =~= name@);
    }
    out
}

/// Math expression text with every non-built-in identifier suffixed, walked
/// from position `i`.
pub open spec fn spec_suffix_math_at(text: Seq<char>, i: int, suffix: Seq<char>) -> Seq<char>
    decreases text.len() - i when 0 <= i <= text.len() via spec_suffix_math_at_decreases
{
    if i >= text.len() {
        Seq::empty()
    } else if is_ident_start(text[i]) {
        let j = ident_end(text, i);
        let name = text.subrange(i, j);
        let piece = if is_builtin(name) {
            name
        } else {
            spec_suffixed(name, suffix)
        };
        piece + spec_suffix_math_at(text, j, suffix)
    } else {
        seq![text[i]] + spec_suffix_math_at(text, i + 1, suffix)
    }
}

#[via_fn]
proof fn spec_suffix_math_at_decreases(text: Seq<char>, i: int, suffix: Seq<char>) {
    if 0 <= i && i < text.len() && is_ident_start(text[i]) {
        lemma_ident_end(text, i);
    }
}

/// The whole math text with every non-built-in identifier suffixed.
pub open spec fn spec_suffix_math(text: Seq<char>, suffix: Seq<char>) -> Seq<char> {
    spec_suffix_math_at(text, 0, suffix)
}

/// Rewrites every non-built-in identifier of a math text by appending
/// `_suffix`, leaving all other characters in place.
pub fn suffix_math_text(text: &Vec<char>, suffix: &Vec<char>) -> (r: Vec<char>)
    ensures
        r@ == spec_suffix_math(text@, suffix@),
{
    let mut out: Vec<char> = Vec::new();
    let mut i: usize = 0;
    while i < text.len()
        invariant
            0 <= i <= text@.len(),
            spec_suffix_math(text@, suffix@) == out@ + spec_suffix_math_at(
                text@,
                i as int,
                suffix@,
            ),
        decreases text@.len() - i,
    {
        if ident_start_char(text[i]) {
            proof {
                lemma_ident_end(text@, i as int);
            }
            let j = scan_ident_end(text, i);
            assert(j > i);
            let mut name: Vec<char> = Vec::new();
            crate::text::push_char_range(&mut name, text, i, j);
            let ghost out0 = out@;
            if builtin_name(&name) {
                crate::text::push_chars(&mut out, &name);
            } else {
                let renamed = add_suffix(&name, suffix);
                crate::text::push_chars(&mut out, &renamed);
            }
            proof {
                assert(out@ + spec_suffix_math_at(text@, j as int, suffix@) =~= out0
                    + spec_suffix_math_at(text@, i as int, suffix@));
            }
            i = j;
        } else {
            let ghost out0 = out@;
            out.push(text[i]);
            proof {
                assert(out@ + spec_suffix_math_at(text@, i as int + 1, suffix@) =~= out0
                    + spec_suffix_math_at(text@, i as int, suffix@));
            }
            i = i + 1;
        }
    }
    proof {
        assert(spec_suffix_math_at(text@, text@.len() as int, suffix@) =~= Seq::<char>::empty());
        assert(out@ =~= out@ + Seq::<char>::empty());
    }
    out
}

/// Hygiene: two names rewritten with distinct suffixes of one length differ,
/// whatever the names were.  This is why two imported files can declare the
/// same constant without interfering.
pub proof fn lemma_suffixed_disjoint(a: Seq<char>, b: Seq<char>, s1: Seq<char>, s2: Seq<char>)
    requires
        s1.len() == s2.len(),
        s1.len() > 0,
        s1 != s2,
    ensures
        spec_suffixed(a, s1) != spec_suffixed(b, s2),
{
    let x = spec_suffixed(a, s1);
    let y = spec_suffixed(b, s2);
    if x == y {
        assert(x.len() == a.len() + 1 + s1.len());
        assert(y.len() == b.len() + 1 + s2.len());
        assert(a.len() == b.len());
        assert forall|k: int| 0 <= k < s1.len() implies s1[k] == s2[k] by {
            assert(x[a.len() + 1 + k] == s1[k]);
            assert(y[b.len() + 1 + k] == s2[k]);
        }
        assert(s1 =~= s2);
    }
}

/// A name that does not end in `_suffix` is never the result of suffixing.
pub proof fn lemma_unsuffixed_distinct(x: Seq<char>, a: Seq<char>, suffix: Seq<char>)
    requires
        suffix.len() > 0,
        forall|n: Seq<char>| x != n + seq!['_'] + suffix,
    ensures
        x != spec_suffixed(a, suffix),
{
    assert(x != a + seq!['_'] + suffix);
}

} // verus!
