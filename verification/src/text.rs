//! Character-level text utilities.
//!
//! The interpreter manipulates expression text as `Vec<char>`, so that every
//! rewrite (identifier substitution, hygiene suffixing, answer formatting) is
//! verified character by character.  Conversions between `String` and
//! `Vec<char>` sit behind two small trusted functions.

use vstd::prelude::*;

verus! {

/// Relies on str::chars: the iterator yields exactly the characters of the
/// string's view, in order.
#[verifier::external_body]
pub fn str_to_chars(s: &str) -> (r: Vec<char>)
    ensures
        r@ == s@,
{
    s.chars().collect()
}

/// Relies on String's FromIterator impl: collecting characters produces the
/// string whose view is exactly that character sequence.
#[verifier::external_body]
pub fn chars_to_string(v: &Vec<char>) -> (r: String)
    ensures
        r@ == v@,
{
    v.iter().collect()
}

/// Character-wise equality of two character vectors.
pub fn chars_eq(a: &Vec<char>, b: &Vec<char>) -> (r: bool)
    ensures
        r == (a@ == b@),
{
    if a.len() != b.len() {
        assert(a@.len() != b@.len());
        return false;
    }
    let mut i: usize = 0;
    while i < a.len()
        invariant
            0 <= i <= a.len(),
            a@.len() == b@.len(),
            forall|k: int| 0 <= k < i ==> a@[k] == b@[k],
        decreases a.len() - i,
    {
        if a[i] != b[i] {
            assert(a@ != b@);
            return false;
        }
        i = i + 1;
    }
    assert(a@ =~= b@);
    true
}

/// The decimal digit character for a value below ten.
pub open spec fn spec_digit_char(d: int) -> char {
    ((48 + d) as u8) as char
}

/// Decimal notation of a non-negative integer, most significant digit first.
pub open spec fn spec_nat_chars(n: int) -> Seq<char>
    decreases n,
{
    if n < 10 {
        seq![spec_digit_char(if n < 0 { 0 } else { n })]
    } else {
        spec_nat_chars(n / 10).push(spec_digit_char(n % 10))
    }
}

/// Decimal notation of an integer, with a leading minus sign when negative.
pub open spec fn spec_int_chars(n: int) -> Seq<char> {
    if n < 0 {
        seq!['-'] + spec_nat_chars(-n)
    } else {
        spec_nat_chars(n)
    }
}

fn nat_to_chars(n: u64) -> (r: Vec<char>)
    ensures
        r@ == spec_nat_chars(n as int),
    decreases n,
{
    if n < 10 {
        let d: u8 = (48 + n as u8);
        let mut v: Vec<char> = Vec::new();
        v.push(d as char);
        assert(v@ =~= spec_nat_chars(n as int));
        v
    } else {
        let mut v = nat_to_chars(n / 10);
        let d: u8 = (48 + (n % 10) as u8);
        v.push(d as char);
        assert(v@ =~= spec_nat_chars(n as int));
        v
    }
}

/// Decimal notation of a signed integer as characters.
pub fn int_to_chars(n: i64) -> (r: Vec<char>)
    ensures
        r@ == spec_int_chars(n as int),
{
    if n >= 0 {
        nat_to_chars(n as u64)
    } else {
        let m: u64 = if n == i64::MIN {
            9223372036854775808u64
        } else {
            (-n) as u64
        };
        assert(m as int == -(n as int));
        let mut v: Vec<char> = Vec::new();
        v.push('-');
        let mut digits = nat_to_chars(m);
        v.append(&mut digits);
        assert(v@ =~= spec_int_chars(n as int));
        v
    }
}

/// Appends a copy of every character of `piece` to `out`.
pub fn push_chars(out: &mut Vec<char>, piece: &Vec<char>)
    ensures
        final(out)@ == old(out)@ + piece@,
{
    let mut i: usize = 0;
    while i < piece.len()
        invariant
            0 <= i <= piece.len(),
            out@ == old(out)@ + piece@.subrange(0, i as int),
        decreases piece.len() - i,
    {
        out.push(piece[i]);
        assert(out@ =~= old(out)@ + piece@.subrange(0, i as int + 1));
        i = i + 1;
    }
    assert(piece@.subrange(0, piece@.len() as int) =~= piece@);
}

/// Appends the characters of `text` in positions `from` (inclusive) to `to`
/// (exclusive) to `out`.
pub fn push_char_range(out: &mut Vec<char>, text: &Vec<char>, from: usize, to: usize)
    requires
        from <= to <= text@.len(),
    ensures
        final(out)@ == old(out)@ + text@.subrange(from as int, to as int),
{
    let mut i: usize = from;
    while i < to
        invariant
            from <= i <= to <= text@.len(),
            out@ == old(out)@ + text@.subrange(from as int, i as int),
        decreases to - i,
    {
        out.push(text[i]);
        assert(out@ =~= old(out)@ + text@.subrange(from as int, i as int + 1));
        i = i + 1;
    }
}

/// An exact copy of a vector of strings.
pub fn clone_strings(v: &Vec<String>) -> (r: Vec<String>)
    ensures
        r@ == v@,
{
    let mut out: Vec<String> = Vec::new();
    let mut i: usize = 0;
    while i < v.len()
        invariant
            0 <= i <= v@.len(),
            out@ =~= v@.subrange(0, i as int),
        decreases v.len() - i,
    {
        out.push(v[i].clone());
        i = i + 1;
    }
    assert(out@ =~= v@);
    out
}

/// The position of the last occurrence of `c` strictly before `j`, or `-1`.
pub open spec fn spec_rfind(s: Seq<char>, c: char, j: int) -> int
    decreases j when 0 <= j <= s.len()
{
    if j <= 0 {
        -1
    } else if s[j - 1] == c {
        j - 1
    } else {
        spec_rfind(s, c, j - 1)
    }
}

/// Finds the last occurrence of `c` before position `j`; the length of the
/// text stands for "none" in the result's successor form.
fn rfind_before(s: &Vec<char>, c: char, j: usize) -> (r: Option<usize>)
    requires
        j <= s@.len(),
    ensures
        match r {
            Some(p) => spec_rfind(s@, c, j as int) == p as int && p < j,
            None => spec_rfind(s@, c, j as int) == -1,
        },
{
    let mut k: usize = j;
    while k > 0
        invariant
            0 <= k <= j <= s@.len(),
            spec_rfind(s@, c, j as int) == spec_rfind(s@, c, k as int),
        decreases k,
    {
        if s[k - 1] == c {
            return Some(k - 1);
        }
        k = k - 1;
    }
    None
}

/// Where a path's file name starts: just past the last slash.
pub open spec fn spec_name_start(path: Seq<char>) -> int {
    spec_rfind(path, '/', path.len() as int) + 1
}

/// Where a path's file stem ends: at the last dot after the name's first
/// character, or at the path's end when there is no such dot.
pub open spec fn spec_stem_end(path: Seq<char>) -> int {
    let dot = spec_rfind(path, '.', path.len() as int);
    if dot > spec_name_start(path) {
        dot
    } else {
        path.len() as int
    }
}

/// A path's file stem: the file name without its extension.
pub open spec fn spec_file_stem(path: Seq<char>) -> Seq<char> {
    path.subrange(spec_name_start(path), spec_stem_end(path))
}

proof fn lemma_rfind(s: Seq<char>, c: char, j: int)
    requires
        0 <= j <= s.len(),
    ensures
        -1 <= spec_rfind(s, c, j) < j,
    decreases j,
{
    if j > 0 && s[j - 1] != c {
        lemma_rfind(s, c, j - 1);
    }
}

/// The file stem of a path: what is between the last slash and the last dot.
pub fn file_stem(path: &Vec<char>) -> (r: Vec<char>)
    ensures
        r@ == spec_file_stem(path@),
{
    proof {
        lemma_rfind(path@, '/', path@.len() as int);
        lemma_rfind(path@, '.', path@.len() as int);
    }
    let start: usize = match rfind_before(path, '/', path.len()) {
        Some(p) => p + 1,
        None => 0,
    };
    let end: usize = match rfind_before(path, '.', path.len()) {
        Some(d) => if d > start {
            d
        } else {
            path.len()
        },
        None => path.len(),
    };
    let mut out: Vec<char> = Vec::new();
    push_char_range(&mut out, path, start, end);
    proof {
        assert(out@ =~= spec_file_stem(path@));
    }
    out
}

/// The default output file path beside a source file: the path with the file
/// name replaced by the stem followed by `_out.txt`.
pub open spec fn spec_default_output_path(path: Seq<char>) -> Seq<char> {
    path.subrange(0, spec_name_start(path)) + spec_file_stem(path) + "_out.txt"@
}

/// Builds the default output file path for a source file.
pub fn default_output_path(path: &Vec<char>) -> (r: Vec<char>)
    ensures
        r@ == spec_default_output_path(path@),
{
    proof {
        lemma_rfind(path@, '/', path@.len() as int);
    }
    let start: usize = match rfind_before(path, '/', path.len()) {
        Some(p) => p + 1,
        None => 0,
    };
    let mut out: Vec<char> = Vec::new();
    push_char_range(&mut out, path, 0, start);
    let stem = file_stem(path);
    push_chars(&mut out, &stem);
    let tail = str_to_chars("_out.txt");
    push_chars(&mut out, &tail);
    proof {
        assert(out@ =~= spec_default_output_path(path@));
    }
    out
}

/// True when every character of the sequence is a space or a tab.
pub open spec fn spec_blank(s: Seq<char>) -> bool {
    forall|i: int| 0 <= i < s.len() ==> s[i] == ' ' || s[i] == '\t'
}

/// Decides whether a character vector holds only spaces and tabs.
pub fn chars_blank(v: &Vec<char>) -> (r: bool)
    ensures
        r == spec_blank(v@),
{
    let mut i: usize = 0;
    while i < v.len()
        invariant
            0 <= i <= v.len(),
            forall|k: int| 0 <= k < i ==> v@[k] == ' ' || v@[k] == '\t',
        decreases v.len() - i,
    {
        if v[i] != ' ' && v[i] != '\t' {
            return false;
        }
        i = i + 1;
    }
    true
}

} // verus!
