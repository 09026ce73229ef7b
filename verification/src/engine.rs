//! The evaluation engine: name resolution and domain dispatch.
//!
//! The engine contributes no arithmetic.  It rewrites a math expression into a
//! closed text — constants replaced by their parenthesized values, function
//! calls inlined after resolving their bodies against the right context — and
//! hands that text to the numeric backend of the domain in force.  One pass
//! propagates one domain through every recursive constant and function lookup.
//!
//! Each executable function returns exactly what its specification-level
//! mirror (`spec_resolve_at`, `spec_eval_answers`, ...) says, so evaluation is
//! provably deterministic.

use vstd::prelude::*;
use crate::backend::{spec_backend, backend_eval};
use crate::context::{BeanieRuntimeContext, spec_pos_in_group, pos_in_group};
use crate::data_type::DataType;
use crate::errors::{BeanieError, ErrorView};
use crate::expression::{BeanieExpression, spec_numeric};
use crate::idents::{
    is_ident_start,
    ident_end,
    lemma_ident_end,
    is_builtin,
    ident_start_char,
    scan_ident_end,
    builtin_name,
};
use crate::text::{
    spec_blank,
    spec_int_chars,
    str_to_chars,
    chars_to_string,
    push_chars,
    push_char_range,
    chars_blank,
    int_to_chars,
};

verus! {

/// How deep constant and function resolution may nest before the engine
/// reports a fatal recursion error: cyclic declarations never hang a run.
pub const DEFAULT_FUEL: u64 = 64;

/// The position of the first non-blank character at or after `i`.
pub open spec fn spec_skip_blanks(text: Seq<char>, i: int) -> int
    decreases text.len() - i when 0 <= i <= text.len()
{
    if i < text.len() && (text[i] == ' ' || text[i] == '\t') {
        spec_skip_blanks(text, i + 1)
    } else {
        i
    }
}

/// `spec_skip_blanks` stays inside the text and moves only forward.
pub proof fn lemma_skip_blanks(text: Seq<char>, i: int)
    requires
        0 <= i <= text.len(),
    ensures
        i <= spec_skip_blanks(text, i) <= text.len(),
    decreases text.len() - i,
{
    if i < text.len() && (text[i] == ' ' || text[i] == '\t') {
        lemma_skip_blanks(text, i + 1);
    }
}

/// Splits the argument list of a call: walks from `i` (just past the opening
/// parenthesis) to the matching closing one, cutting at top-level commas.
/// `cur` is the argument being collected, `acc` those already cut.  `None`
/// when the parentheses never close.
pub open spec fn spec_split_args(
    text: Seq<char>,
    i: int,
    depth: int,
    cur: Seq<char>,
    acc: Seq<Seq<char>>,
) -> Option<(Seq<Seq<char>>, int)>
    decreases text.len() - i when 0 <= i <= text.len()
{
    if i >= text.len() {
        None
    } else if text[i] == '(' {
        spec_split_args(text, i + 1, depth + 1, cur.push('('), acc)
    } else if text[i] == ')' {
        if depth == 0 {
            Some((acc.push(cur), i + 1))
        } else {
            spec_split_args(text, i + 1, depth - 1, cur.push(')'), acc)
        }
    } else if text[i] == ',' && depth == 0 {
        spec_split_args(text, i + 1, 0, Seq::empty(), acc.push(cur))
    } else {
        spec_split_args(text, i + 1, depth, cur.push(text[i]), acc)
    }
}

/// A successful split ends past its starting point, inside the text.
pub proof fn lemma_split_args(text: Seq<char>, i: int, depth: int, cur: Seq<char>, acc: Seq<
    Seq<char>,
>)
    requires
        0 <= i <= text.len(),
    ensures
        match spec_split_args(text, i, depth, cur, acc) {
            Some((args, end)) => i < end <= text.len(),
            None => true,
        },
    decreases text.len() - i,
{
    if i < text.len() {
        if text[i] == '(' {
            lemma_split_args(text, i + 1, depth + 1, cur.push('('), acc);
        } else if text[i] == ')' {
            if depth != 0 {
                lemma_split_args(text, i + 1, depth - 1, cur.push(')'), acc);
            }
        } else if text[i] == ',' && depth == 0 {
            lemma_split_args(text, i + 1, 0, Seq::empty(), acc.push(cur));
        } else {
            lemma_split_args(text, i + 1, depth, cur.push(text[i]), acc);
        }
    }
}

/// A resolved function body with each parameter occurrence replaced by the
/// matching resolved argument in parentheses, walked from position `i`.
/// Parameters past the argument list are left in place; the engine only
/// substitutes with as many arguments as parameters.
pub open spec fn spec_subst_at(
    body: Seq<char>,
    i: int,
    params: Seq<String>,
    args: Seq<Seq<char>>,
) -> Seq<char>
    decreases body.len() - i when 0 <= i <= body.len() via spec_subst_at_decreases
{
    if i >= body.len() {
        Seq::empty()
    } else if is_ident_start(body[i]) {
        let j = ident_end(body, i);
        let name = body.subrange(i, j);
        let piece = match spec_pos_in_group(params, name, 0) {
            Some(p) => if p < args.len() {
                seq!['('] + args[p] + seq![')']
            } else {
                name
            },
            None => name,
        };
        piece + spec_subst_at(body, j, params, args)
    } else {
        seq![body[i]] + spec_subst_at(body, i + 1, params, args)
    }
}

#[via_fn]
proof fn spec_subst_at_decreases(body: Seq<char>, i: int, params: Seq<String>, args: Seq<
    Seq<char>,
>) {
    if 0 <= i && i < body.len() && is_ident_start(body[i]) {
        lemma_ident_end(body, i);
    }
}

/// A resolution or evaluation outcome continued after an already-resolved
/// prefix.
pub open spec fn after_prefix(prefix: Seq<char>, r: Result<Seq<char>, ErrorView>) -> Result<
    Seq<char>,
    ErrorView,
> {
    match r {
        Ok(s) => Ok(prefix + s),
        Err(e) => Err(e),
    }
}

/// Resolution of the math text from position `i` on, against a context, a
/// set of bound parameter names and the domain of this evaluation pass.
///
/// Per identifier: a bound parameter or a built-in stays; a constant is
/// replaced by its parenthesized value, the one at the name's position in its
/// group when the group's expression yields several; a function name must
/// head a call, whose arguments are resolved, whose body is resolved against
/// the function's foreign context when it has one and the current context
/// otherwise, and which is then inlined by parameter substitution; anything
/// else is a fatal unknown identifier.
pub open spec fn spec_resolve_at(
    text: Seq<char>,
    i: int,
    ctx: BeanieRuntimeContext,
    bound: Seq<String>,
    domain: DataType,
    fuel: nat,
) -> Result<Seq<char>, ErrorView>
    decreases fuel, 1int, text.len() - i when 0 <= i <= text.len() via spec_resolve_at_decreases
{
    if i >= text.len() {
        Ok(Seq::empty())
    } else if is_ident_start(text[i]) {
        let j = ident_end(text, i);
        let name = text.subrange(i, j);
        if spec_pos_in_group(bound, name, 0) is Some || is_builtin(name) {
            after_prefix(name, spec_resolve_at(text, j, ctx, bound, domain, fuel))
        } else if ctx.spec_constant(name) is Some {
            if fuel == 0 {
                Err(ErrorView::RecursionLimit)
            } else {
                let (g, p) = ctx.spec_constant(name).unwrap();
                match spec_eval_answers(ctx.constants@[g].1, ctx, domain, (fuel - 1) as nat) {
                    Ok(vals) => {
                        if vals.len() == 1 || p < vals.len() {
                            let value = if vals.len() == 1 {
                                vals[0]
                            } else {
                                vals[p]
                            };
                            after_prefix(
                                seq!['('] + value + seq![')'],
                                spec_resolve_at(text, j, ctx, bound, domain, fuel),
                            )
                        } else {
                            Err(ErrorView::AnswerOutOfRange(name))
                        }
                    },
                    Err(e) => Err(e),
                }
            }
        } else if ctx.spec_function(name) is Some {
            if fuel == 0 {
                Err(ErrorView::RecursionLimit)
            } else {
                let f = ctx.functions@[ctx.spec_function(name).unwrap()];
                let a = spec_skip_blanks(text, j);
                if a >= text.len() || text[a] != '(' {
                    Err(ErrorView::WrongArgumentCount(name))
                } else {
                    match spec_split_args(text, a + 1, 0, Seq::empty(), Seq::empty()) {
                        None => Err(ErrorView::MathFailure(text)),
                        Some((raw, end)) => {
                            let args = if raw.len() == 1 && spec_blank(raw[0])
                                && f.parameters@.len() == 0 {
                                Seq::<Seq<char>>::empty()
                            } else {
                                raw
                            };
                            if args.len() != f.parameters@.len() {
                                Err(ErrorView::WrongArgumentCount(name))
                            } else {
                                match spec_resolve_list(
                                    args,
                                    0,
                                    ctx,
                                    bound,
                                    domain,
                                    (fuel - 1) as nat,
                                ) {
                                    Err(e) => Err(e),
                                    Ok(rargs) => match f.expression {
                                        BeanieExpression::Math(body, _) => {
                                            let bctx = match f.external_context {
                                                Some(c) => *c,
                                                None => ctx,
                                            };
                                            match spec_resolve_at(
                                                body@,
                                                0,
                                                bctx,
                                                f.parameters@,
                                                domain,
                                                (fuel - 1) as nat,
                                            ) {
                                                Err(e) => Err(e),
                                                Ok(rbody) => after_prefix(
                                                    seq!['('] + spec_subst_at(
                                                        rbody,
                                                        0,
                                                        f.parameters@,
                                                        rargs,
                                                    ) + seq![')'],
                                                    spec_resolve_at(
                                                        text,
                                                        end,
                                                        ctx,
                                                        bound,
                                                        domain,
                                                        fuel,
                                                    ),
                                                ),
                                            }
                                        },
                                        _ => Err(ErrorView::MathFailure(name)),
                                    },
                                }
                            }
                        },
                    }
                }
            }
        } else {
            Err(ErrorView::UnknownIdentifier(name))
        }
    } else {
        after_prefix(seq![text[i]], spec_resolve_at(text, i + 1, ctx, bound, domain, fuel))
    }
}

#[via_fn]
proof fn spec_resolve_at_decreases(
    text: Seq<char>,
    i: int,
    ctx: BeanieRuntimeContext,
    bound: Seq<String>,
    domain: DataType,
    fuel: nat,
) {
    if 0 <= i && i < text.len() && is_ident_start(text[i]) {
        lemma_ident_end(text, i);
        let j = ident_end(text, i);
        lemma_skip_blanks(text, j);
        let a = spec_skip_blanks(text, j);
        if a < text.len() {
            lemma_split_args(text, a + 1, 0, Seq::empty(), Seq::empty());
        }
    }
}

/// Resolution of a list of argument texts, each from its start.
pub open spec fn spec_resolve_list(
    texts: Seq<Seq<char>>,
    k: int,
    ctx: BeanieRuntimeContext,
    bound: Seq<String>,
    domain: DataType,
    fuel: nat,
) -> Result<Seq<Seq<char>>, ErrorView>
    decreases fuel, 2int, texts.len() - k when 0 <= k <= texts.len()
{
    if k >= texts.len() {
        Ok(Seq::empty())
    } else {
        match spec_resolve_at(texts[k], 0, ctx, bound, domain, fuel) {
            Err(e) => Err(e),
            Ok(r) => match spec_resolve_list(texts, k + 1, ctx, bound, domain, fuel) {
                Err(e) => Err(e),
                Ok(rest) => Ok(seq![r] + rest),
            },
        }
    }
}

/// The answers an expression evaluates to under a domain: value display
/// strings, in the backend's order.  Under the irrational domain a math
/// expression echoes its text unevaluated; a ready number or boolean renders
/// directly; evaluation under the two exact rational domains fails, their
/// backend being absent.
pub open spec fn spec_eval_answers(
    e: BeanieExpression,
    ctx: BeanieRuntimeContext,
    domain: DataType,
    fuel: nat,
) -> Result<Seq<Seq<char>>, ErrorView>
    decreases fuel, 3int, 0int
{
    match e {
        BeanieExpression::Math(text, _) => {
            if domain is Irrational {
                Ok(seq![text@])
            } else {
                match spec_resolve_at(text@, 0, ctx, Seq::empty(), domain, fuel) {
                    Err(err) => Err(err),
                    Ok(resolved) => match spec_backend(domain, resolved) {
                        Some(vs) => Ok(vs),
                        None => Err(ErrorView::MathFailure(resolved)),
                    },
                }
            }
        },
        BeanieExpression::SimpleNumber(n) => Ok(seq![spec_int_chars(n as int)]),
        BeanieExpression::Boolean(b) => Ok(
            seq![if b {
                seq!['1']
            } else {
                seq!['0']
            }],
        ),
        _ => Err(ErrorView::MathFailure(Seq::empty())),
    }
}

/// A list resolution outcome continued after already-resolved entries.
pub open spec fn after_entries(prefix: Seq<Seq<char>>, r: Result<Seq<Seq<char>>, ErrorView>) -> Result<
    Seq<Seq<char>>,
    ErrorView,
> {
    match r {
        Ok(rest) => Ok(prefix + rest),
        Err(e) => Err(e),
    }
}

proof fn lemma_after_prefix_assoc(p1: Seq<char>, p2: Seq<char>, r: Result<Seq<char>, ErrorView>)
    ensures
        after_prefix(p1 + p2, r) == after_prefix(p1, after_prefix(p2, r)),
{
    match r {
        Ok(s) => {
            assert((p1 + p2) + s =~= p1 + (p2 + s));
        },
        Err(_) => {},
    }
}

/// Finds the first non-blank position at or after `i`.
fn skip_blanks(text: &Vec<char>, i: usize) -> (j: usize)
    requires
        i <= text@.len(),
    ensures
        j == spec_skip_blanks(text@, i as int),
        i <= j <= text@.len(),
{
    proof {
        lemma_skip_blanks(text@, i as int);
    }
    let mut j: usize = i;
    while j < text.len() && (text[j] == ' ' || text[j] == '\t')
        invariant
            i <= j <= text@.len(),
            spec_skip_blanks(text@, i as int) == spec_skip_blanks(text@, j as int),
        decreases text@.len() - j,
    {
        j = j + 1;
    }
    j
}

/// Cuts the argument texts of a call and finds the position just past its
/// closing parenthesis; `None` when the parentheses never close.
fn split_args(text: &Vec<char>, start: usize) -> (r: Option<(Vec<Vec<char>>, usize)>)
    requires
        start <= text@.len(),
    ensures
        match r {
            Some((args, end)) => {
                &&& spec_split_args(text@, start as int, 0, Seq::empty(), Seq::empty())
                    == Some((args.deep_view(), end as int))
                &&& start < end <= text@.len()
            },
            None => spec_split_args(text@, start as int, 0, Seq::empty(), Seq::empty()) is None,
        },
{
    let mut i: usize = start;
    let mut depth: usize = 0;
    let mut cur: Vec<char> = Vec::new();
    let mut acc: Vec<Vec<char>> = Vec::new();
    proof {
        assert(cur@ =~= Seq::<char>::empty());
        assert(acc.deep_view() =~~= Seq::<Seq<char>>::empty());
    }
    while i < text.len()
        invariant
            start <= i <= text@.len(),
            depth <= i,
            spec_split_args(text@, start as int, 0, Seq::empty(), Seq::empty())
                == spec_split_args(text@, i as int, depth as int, cur@, acc.deep_view()),
        decreases text@.len() - i,
    {
        let c = text[i];
        if c == '(' {
            let ghost acc0 = acc.deep_view();
            cur.push('(');
            depth = depth + 1;
            proof {
                assert(acc.deep_view() =~~= acc0);
            }
        } else if c == ')' {
            if depth == 0 {
                let ghost acc0 = acc.deep_view();
                let ghost cur0 = cur@;
                acc.push(cur);
                proof {
                    assert(acc.deep_view() =~~= acc0.push(cur0));
                }
                return Some((acc, i + 1));
            } else {
                let ghost acc0 = acc.deep_view();
                cur.push(')');
                depth = depth - 1;
                proof {
                    assert(acc.deep_view() =~~= acc0);
                }
            }
        } else if c == ',' && depth == 0 {
            let ghost acc0 = acc.deep_view();
            let ghost cur0 = cur@;
            acc.push(cur);
            cur = Vec::new();
            proof {
                assert(acc.deep_view() =~~= acc0.push(cur0));
                assert(cur@ =~= Seq::<char>::empty());
            }
        } else {
            let ghost acc0 = acc.deep_view();
            cur.push(c);
            proof {
                assert(acc.deep_view() =~~= acc0);
            }
        }
        i = i + 1;
    }
    None
}

/// Replaces each parameter occurrence of a resolved body by the matching
/// resolved argument in parentheses.
fn substitute(body: &Vec<char>, params: &Vec<String>, args: &Vec<Vec<char>>) -> (r: Vec<char>)
    ensures
        r@ == spec_subst_at(body@, 0, params@, args.deep_view()),
{
    let mut out: Vec<char> = Vec::new();
    let mut i: usize = 0;
    while i < body.len()
        invariant
            0 <= i <= body@.len(),
            spec_subst_at(body@, 0, params@, args.deep_view()) == out@ + spec_subst_at(
                body@,
                i as int,
                params@,
                args.deep_view(),
            ),
        decreases body@.len() - i,
    {
        if ident_start_char(body[i]) {
            proof {
                lemma_ident_end(body@, i as int);
            }
            let j = scan_ident_end(body, i);
            let mut name: Vec<char> = Vec::new();
            push_char_range(&mut name, body, i, j);
            proof {
                assert(name@ =~= body@.subrange(i as int, j as int));
            }
            let ghost out0 = out@;
            let mut replaced = false;
            match pos_in_group(params, &name) {
                Some(p) => {
                    if p < args.len() {
                        out.push('(');
                        push_chars(&mut out, &args[p]);
                        out.push(')');
                        proof {
                            assert(args.deep_view()[p as int] == args@[p as int]@);
                            assert(out@ =~= out0 + (seq!['('] + args.deep_view()[p as int]
                                + seq![')']));
                        }
                        replaced = true;
                    }
                },
                None => {},
            }
            if !replaced {
                push_chars(&mut out, &name);
            }
            proof {
                assert(out@ + spec_subst_at(body@, j as int, params@, args.deep_view()) =~= out0
                    + spec_subst_at(body@, i as int, params@, args.deep_view()));
            }
            i = j;
        } else {
            let ghost out0 = out@;
            out.push(body[i]);
            proof {
                assert(out@ + spec_subst_at(body@, i as int + 1, params@, args.deep_view()) =~=
                    out0 + spec_subst_at(body@, i as int, params@, args.deep_view()));
            }
            i = i + 1;
        }
    }
    proof {
        assert(out@ =~= out@ + spec_subst_at(body@, body@.len() as int, params@, args.deep_view()));
    }
    out
}

/// Resolves a math text into a closed one, exactly as `spec_resolve_at` from
/// position zero says.
#[verifier::rlimit(100)]
pub fn resolve_math(
    text: &Vec<char>,
    ctx: &BeanieRuntimeContext,
    bound: &Vec<String>,
    domain: DataType,
    fuel: u64,
) -> (r: Result<Vec<char>, BeanieError>)
    requires
        ctx.wf(),
    ensures
        match r {
            Ok(v) => spec_resolve_at(text@, 0, *ctx, bound@, domain, fuel as nat) == Ok::<Seq<char>, ErrorView>(v@),
            Err(e) => spec_resolve_at(text@, 0, *ctx, bound@, domain, fuel as nat) == Err::<Seq<char>, ErrorView>(e@),
        },
    decreases fuel, 1int,
{
    let mut out: Vec<char> = Vec::new();
    let mut i: usize = 0;
    proof {
        assert(after_prefix(
            Seq::<char>::empty(),
            spec_resolve_at(text@, 0, *ctx, bound@, domain, fuel as nat),
        ) == spec_resolve_at(text@, 0, *ctx, bound@, domain, fuel as nat)) by {
            match spec_resolve_at(text@, 0, *ctx, bound@, domain, fuel as nat) {
                Ok(s) => {
                    assert(Seq::<char>::empty() + s =~= s);
                },
                Err(_) => {},
            }
        }
    }
    while i < text.len()
        invariant
            0 <= i <= text@.len(),
            ctx.wf(),
            spec_resolve_at(text@, 0, *ctx, bound@, domain, fuel as nat) == after_prefix(
                out@,
                spec_resolve_at(text@, i as int, *ctx, bound@, domain, fuel as nat),
            ),
        decreases text@.len() - i,
    {
        let ghost here = spec_resolve_at(text@, i as int, *ctx, bound@, domain, fuel as nat);
        let c = text[i];
        if ident_start_char(c) {
            proof {
                lemma_ident_end(text@, i as int);
            }
            let j = scan_ident_end(text, i);
            let mut name: Vec<char> = Vec::new();
            push_char_range(&mut name, text, i, j);
            proof {
                assert(name@ =~= text@.subrange(i as int, j as int));
            }
            if pos_in_group(bound, &name).is_some() || builtin_name(&name) {
                let ghost out0 = out@;
                push_chars(&mut out, &name);
                proof {
                    let rest = spec_resolve_at(text@, j as int, *ctx, bound@, domain, fuel as nat);
                    assert(here == after_prefix(name@, rest));
                    lemma_after_prefix_assoc(out0, name@, rest);
                    assert(out0 + name@ =~= out@);
                }
                i = j;
            } else {
                match ctx.get_constant(&name) {
                    Some((cexpr, p)) => {
                        if fuel == 0 {
                            return Err(BeanieError::RecursionLimit);
                        }
                        let vals = match eval_answers(cexpr, ctx, domain, fuel - 1) {
                            Ok(vs) => vs,
                            Err(e) => {
                                return Err(e);
                            },
                        };
                        if vals.len() == 1 || p < vals.len() {
                            let idx: usize = if vals.len() == 1 {
                                0
                            } else {
                                p
                            };
                            let value = str_to_chars(vals[idx].as_str());
                            proof {
                                assert(vals.deep_view()[idx as int] == vals@[idx as int]@);
                            }
                            let ghost out0 = out@;
                            out.push('(');
                            push_chars(&mut out, &value);
                            out.push(')');
                            proof {
                                let rest = spec_resolve_at(
                                    text@,
                                    j as int,
                                    *ctx,
                                    bound@,
                                    domain,
                                    fuel as nat,
                                );
                                let piece = seq!['('] + value@ + seq![')'];
                                assert(here == after_prefix(piece, rest));
                                lemma_after_prefix_assoc(out0, piece, rest);
                                assert(out0 + piece =~= out@);
                            }
                            i = j;
                        } else {
                            return Err(BeanieError::AnswerOutOfRange(chars_to_string(&name)));
                        }
                    },
                    None => {
                        match ctx.get_function(&name) {
                            Some(f) => {
                                if fuel == 0 {
                                    return Err(BeanieError::RecursionLimit);
                                }
                                let a = skip_blanks(text, j);
                                if a >= text.len() || text[a] != '(' {
                                    return Err(
                                        BeanieError::WrongArgumentCount(chars_to_string(&name)),
                                    );
                                }
                                let (raw, end) = match split_args(text, a + 1) {
                                    Some(pair) => pair,
                                    None => {
                                        return Err(BeanieError::MathFailure(chars_to_string(text)));
                                    },
                                };
                                proof {
                                    if raw@.len() == 1 {
                                        assert(raw.deep_view()[0] =~= raw@[0]@);
                                    }
                                }
                                let use_empty = raw.len() == 1 && chars_blank(&raw[0])
                                    && f.parameters.len() == 0;
                                let args: Vec<Vec<char>> = if use_empty {
                                    Vec::new()
                                } else {
                                    raw
                                };
                                proof {
                                    if use_empty {
                                        assert(args.deep_view() =~~= Seq::<Seq<char>>::empty());
                                    }
                                }
                                if args.len() != f.parameters.len() {
                                    return Err(
                                        BeanieError::WrongArgumentCount(chars_to_string(&name)),
                                    );
                                }
                                let rargs = match resolve_list(&args, ctx, bound, domain, fuel - 1) {
                                    Ok(v) => v,
                                    Err(e) => {
                                        return Err(e);
                                    },
                                };
                                let ghost k = ctx.spec_function(name@).unwrap();
                                proof {
                                    assert(ctx.functions@[k].expression matches
                                        BeanieExpression::Math(_, _));
                                }
                                let body_text = match &f.expression {
                                    BeanieExpression::Math(t, _) => t,
                                    _ => {
                                        return vstd::pervasive::unreached();
                                    },
                                };
                                let body_chars = str_to_chars(body_text.as_str());
                                let rbody = match &f.external_context {
                                    Some(c) => {
                                        proof {
                                            assert(ctx.functions@[k].external_context is Some);
                                            (**c).lemma_wf_inner_implies_wf();
                                        }
                                        resolve_math(&body_chars, &**c, &f.parameters, domain, fuel - 1)
                                    },
                                    None => resolve_math(
                                        &body_chars,
                                        ctx,
                                        &f.parameters,
                                        domain,
                                        fuel - 1,
                                    ),
                                };
                                let rbody = match rbody {
                                    Ok(v) => v,
                                    Err(e) => {
                                        return Err(e);
                                    },
                                };
                                let inlined = substitute(&rbody, &f.parameters, &rargs);
                                let ghost out0 = out@;
                                out.push('(');
                                push_chars(&mut out, &inlined);
                                out.push(')');
                                proof {
                                    let rest = spec_resolve_at(
                                        text@,
                                        end as int,
                                        *ctx,
                                        bound@,
                                        domain,
                                        fuel as nat,
                                    );
                                    let piece = seq!['('] + inlined@ + seq![')'];
                                    assert(here == after_prefix(piece, rest));
                                    lemma_after_prefix_assoc(out0, piece, rest);
                                    assert(out0 + piece =~= out@);
                                }
                                i = end;
                            },
                            None => {
                                return Err(BeanieError::UnknownIdentifier(chars_to_string(&name)));
                            },
                        }
                    },
                }
            }
        } else {
            let ghost out0 = out@;
            out.push(c);
            proof {
                let rest = spec_resolve_at(text@, i as int + 1, *ctx, bound@, domain, fuel as nat);
                assert(here == after_prefix(seq![text@[i as int]], rest));
                lemma_after_prefix_assoc(out0, seq![text@[i as int]], rest);
                assert(out0 + seq![text@[i as int]] =~= out@);
            }
            i = i + 1;
        }
    }
    proof {
        assert(spec_resolve_at(text@, text@.len() as int, *ctx, bound@, domain, fuel as nat)
            == Ok::<Seq<char>, ErrorView>(Seq::empty()));
        assert(out@ + Seq::<char>::empty() =~= out@);
    }
    Ok(out)
}

/// Resolves each argument text of a call.
fn resolve_list(
    texts: &Vec<Vec<char>>,
    ctx: &BeanieRuntimeContext,
    bound: &Vec<String>,
    domain: DataType,
    fuel: u64,
) -> (r: Result<Vec<Vec<char>>, BeanieError>)
    requires
        ctx.wf(),
    ensures
        match r {
            Ok(vs) => spec_resolve_list(texts.deep_view(), 0, *ctx, bound@, domain, fuel as nat)
                == Ok::<Seq<Seq<char>>, ErrorView>(vs.deep_view()),
            Err(e) => spec_resolve_list(texts.deep_view(), 0, *ctx, bound@, domain, fuel as nat)
                == Err::<Seq<Seq<char>>, ErrorView>(e@),
        },
    decreases fuel, 2int,
{
    let mut out: Vec<Vec<char>> = Vec::new();
    let mut k: usize = 0;
    proof {
        assert(out.deep_view() =~~= Seq::<Seq<char>>::empty());
    }
    while k < texts.len()
        invariant
            0 <= k <= texts@.len(),
            ctx.wf(),
            spec_resolve_list(texts.deep_view(), 0, *ctx, bound@, domain, fuel as nat)
                == after_entries(
                out.deep_view(),
                spec_resolve_list(texts.deep_view(), k as int, *ctx, bound@, domain, fuel as nat),
            ),
        decreases texts@.len() - k,
    {
        proof {
            assert(texts.deep_view()[k as int] == texts@[k as int]@);
        }
        match resolve_math(&texts[k], ctx, bound, domain, fuel) {
            Ok(v) => {
                let ghost out0 = out.deep_view();
                let ghost v0 = v@;
                out.push(v);
                proof {
                    assert(out.deep_view() =~~= out0.push(v0));
                    let rest = spec_resolve_list(
                        texts.deep_view(),
                        k as int + 1,
                        *ctx,
                        bound@,
                        domain,
                        fuel as nat,
                    );
                    match rest {
                        Ok(rs) => {
                            assert(out0 + (seq![v0] + rs) =~= out0.push(v0) + rs);
                        },
                        Err(_) => {},
                    }
                }
            },
            Err(e) => {
                return Err(e);
            },
        }
        k = k + 1;
    }
    proof {
        assert(out.deep_view() + Seq::<Seq<char>>::empty() =~~= out.deep_view());
    }
    Ok(out)
}

/// Evaluates an expression to its answers under a domain, exactly as
/// `spec_eval_answers` says.
pub fn eval_answers(
    e: &BeanieExpression,
    ctx: &BeanieRuntimeContext,
    domain: DataType,
    fuel: u64,
) -> (r: Result<Vec<String>, BeanieError>)
    requires
        ctx.wf(),
        spec_numeric(*e),
    ensures
        match r {
            Ok(vs) => spec_eval_answers(*e, *ctx, domain, fuel as nat) == Ok::<Seq<Seq<char>>, ErrorView>(vs.deep_view()),
            Err(err) => spec_eval_answers(*e, *ctx, domain, fuel as nat) == Err::<Seq<Seq<char>>, ErrorView>(err@),
        },
    decreases fuel, 3int,
{
    match e {
        BeanieExpression::Math(text, _) => {
            match domain {
                DataType::Irrational => {
                    let mut vs: Vec<String> = Vec::new();
                    vs.push(text.clone());
                    proof {
                        assert(vs.deep_view() =~~= seq![text@]);
                    }
                    Ok(vs)
                },
                _ => {
                    let chars = str_to_chars(text.as_str());
                    let bound: Vec<String> = Vec::new();
                    proof {
                        assert(bound@ =~= Seq::<String>::empty());
                    }
                    match resolve_math(&chars, ctx, &bound, domain, fuel) {
                        Err(err) => Err(err),
                        Ok(resolved) => match backend_eval(domain, &resolved) {
                            Some(vs) => Ok(vs),
                            None => Err(BeanieError::MathFailure(chars_to_string(&resolved))),
                        },
                    }
                },
            }
        },
        BeanieExpression::SimpleNumber(n) => {
            let digits = int_to_chars(*n);
            let mut vs: Vec<String> = Vec::new();
            vs.push(chars_to_string(&digits));
            proof {
                assert(vs.deep_view() =~~= seq![spec_int_chars(*n as int)]);
            }
            Ok(vs)
        },
        BeanieExpression::Boolean(b) => {
            let lit: &str = if *b {
                "1"
            } else {
                "0"
            };
            proof {
                reveal_strlit("1");
                reveal_strlit("0");
            }
            let mut vs: Vec<String> = Vec::new();
            vs.push(lit.to_owned());
            proof {
                if *b {
                    assert(vs.deep_view() =~~= seq![seq!['1']]);
                } else {
                    assert(vs.deep_view() =~~= seq![seq!['0']]);
                }
            }
            Ok(vs)
        },
        _ => vstd::pervasive::unreached(),
    }
}

/// Answers joined from entry `k` on, separated by comma and space.
pub open spec fn spec_join_list(vs: Seq<Seq<char>>, k: int) -> Seq<char>
    decreases vs.len() - k when 0 <= k <= vs.len()
{
    if k >= vs.len() {
        Seq::empty()
    } else if k == vs.len() - 1 {
        vs[k]
    } else {
        vs[k] + seq![',', ' '] + spec_join_list(vs, k + 1)
    }
}

/// The displayable text of an answer list: a single value stands alone,
/// several stand in braces separated by comma and space.
pub open spec fn spec_join_answers(vs: Seq<Seq<char>>) -> Seq<char> {
    if vs.len() == 1 {
        vs[0]
    } else {
        seq!['{'] + spec_join_list(vs, 0) + seq!['}']
    }
}

/// Formats an answer list as one display text.
pub fn join_answers(vs: &Vec<String>) -> (r: Vec<char>)
    ensures
        r@ == spec_join_answers(vs.deep_view()),
{
    if vs.len() == 1 {
        let r = str_to_chars(vs[0].as_str());
        proof {
            assert(vs.deep_view()[0] == vs@[0]@);
        }
        return r;
    }
    let mut out: Vec<char> = Vec::new();
    out.push('{');
    let mut k: usize = 0;
    while k < vs.len()
        invariant
            0 <= k <= vs@.len(),
            seq!['{'] + spec_join_list(vs.deep_view(), 0) == out@ + spec_join_list(
                vs.deep_view(),
                k as int,
            ),
        decreases vs@.len() - k,
    {
        let ghost out0 = out@;
        let entry = str_to_chars(vs[k].as_str());
        push_chars(&mut out, &entry);
        proof {
            assert(vs.deep_view()[k as int] == vs@[k as int]@);
        }
        if k + 1 < vs.len() {
            out.push(',');
            out.push(' ');
            proof {
                assert(out@ =~= out0 + (vs.deep_view()[k as int] + seq![',', ' ']));
                assert(out0 + (vs.deep_view()[k as int] + seq![',', ' ']) + spec_join_list(
                    vs.deep_view(),
                    k as int + 1,
                ) =~= out0 + spec_join_list(vs.deep_view(), k as int));
            }
        } else {
            proof {
                assert(out@ =~= out0 + vs.deep_view()[k as int]);
                assert(out0 + vs.deep_view()[k as int] + spec_join_list(
                    vs.deep_view(),
                    k as int + 1,
                ) =~= out0 + spec_join_list(vs.deep_view(), k as int));
            }
        }
        k = k + 1;
    }
    out.push('}');
    proof {
        assert(spec_join_list(vs.deep_view(), vs@.len() as int) =~= Seq::<char>::empty());
        assert(out@ =~= seq!['{'] + spec_join_list(vs.deep_view(), 0) + seq!['}']);
    }
    out
}

/// The first position from the left that is not a single quote.
pub open spec fn spec_trim_left(s: Seq<char>, i: int) -> int
    decreases s.len() - i when 0 <= i <= s.len()
{
    if i < s.len() && s[i] == '\'' {
        spec_trim_left(s, i + 1)
    } else {
        i
    }
}

/// The last position from the right whose predecessor is not a single quote.
pub open spec fn spec_trim_right(s: Seq<char>, j: int) -> int
    decreases j when 0 <= j <= s.len()
{
    if j > 0 && s[j - 1] == '\'' {
        spec_trim_right(s, j - 1)
    } else {
        j
    }
}

/// A string literal's display text: the text with the single quotes trimmed
/// from both ends.
pub open spec fn spec_trim_quotes(s: Seq<char>) -> Seq<char> {
    let a = spec_trim_left(s, 0);
    let b = spec_trim_right(s, s.len() as int);
    if a < b {
        s.subrange(a, b)
    } else {
        Seq::empty()
    }
}

proof fn lemma_trim_left(s: Seq<char>, i: int)
    requires
        0 <= i <= s.len(),
    ensures
        i <= spec_trim_left(s, i) <= s.len(),
    decreases s.len() - i,
{
    if i < s.len() && s[i] == '\'' {
        lemma_trim_left(s, i + 1);
    }
}

proof fn lemma_trim_right(s: Seq<char>, j: int)
    requires
        0 <= j <= s.len(),
    ensures
        0 <= spec_trim_right(s, j) <= j,
    decreases j,
{
    if j > 0 && s[j - 1] == '\'' {
        lemma_trim_right(s, j - 1);
    }
}

/// Trims single quotes from both ends of the text.
pub fn trim_quotes(v: &Vec<char>) -> (r: Vec<char>)
    ensures
        r@ == spec_trim_quotes(v@),
{
    proof {
        lemma_trim_left(v@, 0);
        lemma_trim_right(v@, v@.len() as int);
    }
    let mut a: usize = 0;
    while a < v.len() && v[a] == '\''
        invariant
            0 <= a <= v@.len(),
            spec_trim_left(v@, 0) == spec_trim_left(v@, a as int),
        decreases v@.len() - a,
    {
        a = a + 1;
    }
    let mut b: usize = v.len();
    while b > 0 && v[b - 1] == '\''
        invariant
            0 <= b <= v@.len(),
            spec_trim_right(v@, v@.len() as int) == spec_trim_right(v@, b as int),
        decreases b,
    {
        b = b - 1;
    }
    let mut out: Vec<char> = Vec::new();
    if a < b {
        push_char_range(&mut out, v, a, b);
        proof {
            assert(out@ =~= v@.subrange(a as int, b as int));
        }
    }
    out
}

/// What an expression displays as: math evaluates under its own domain tag
/// and joins its answers; a boolean displays as `true` or `false`; a file
/// path displays as itself; a string literal displays with its quotes
/// trimmed.
pub open spec fn spec_eval_to_string(
    e: BeanieExpression,
    ctx: BeanieRuntimeContext,
    fuel: nat,
) -> Result<Seq<char>, ErrorView> {
    match e {
        BeanieExpression::Math(_, d) => match spec_eval_answers(e, ctx, d, fuel) {
            Ok(vs) => Ok(spec_join_answers(vs)),
            Err(er) => Err(er),
        },
        BeanieExpression::SimpleNumber(n) => Ok(spec_int_chars(n as int)),
        BeanieExpression::Boolean(b) => Ok(
            if b {
                "true"@
            } else {
                "false"@
            },
        ),
        BeanieExpression::FilePath(p) => Ok(p@),
        BeanieExpression::StringLiteral(s) => Ok(spec_trim_quotes(s@)),
    }
}

impl BeanieExpression {
    /// The answers of this expression under the given domain, each as its
    /// display text.
    pub fn evaluate(&self, context: &BeanieRuntimeContext, domain: DataType) -> (r: Result<
        Vec<String>,
        BeanieError,
    >)
        requires
            context.wf(),
            spec_numeric(*self),
        ensures
            match r {
                Ok(vs) => spec_eval_answers(*self, *context, domain, DEFAULT_FUEL as nat) == Ok::<
                    Seq<Seq<char>>,
                    ErrorView,
                >(vs.deep_view()),
                Err(err) => spec_eval_answers(*self, *context, domain, DEFAULT_FUEL as nat)
                    == Err::<Seq<Seq<char>>, ErrorView>(err@),
            },
    {
        eval_answers(self, context, domain, DEFAULT_FUEL)
    }

    /// The display text of this expression: a math expression is evaluated
    /// under its own domain tag.
    pub fn evaluate_to_string(&self, context: &BeanieRuntimeContext) -> (r: Result<
        String,
        BeanieError,
    >)
        requires
            context.wf(),
        ensures
            match r {
                Ok(s) => spec_eval_to_string(*self, *context, DEFAULT_FUEL as nat) == Ok::<
                    Seq<char>,
                    ErrorView,
                >(s@),
                Err(err) => spec_eval_to_string(*self, *context, DEFAULT_FUEL as nat) == Err::<
                    Seq<char>,
                    ErrorView,
                >(err@),
            },
    {
        match self {
            BeanieExpression::Math(_, d) => {
                match eval_answers(self, context, *d, DEFAULT_FUEL) {
                    Ok(vs) => Ok(chars_to_string(&join_answers(&vs))),
                    Err(err) => Err(err),
                }
            },
            BeanieExpression::SimpleNumber(n) => {
                let digits = int_to_chars(*n);
                Ok(chars_to_string(&digits))
            },
            BeanieExpression::Boolean(b) => {
                let lit: &str = if *b {
                    "true"
                } else {
                    "false"
                };
                Ok(lit.to_owned())
            },
            BeanieExpression::FilePath(p) => Ok(p.clone()),
            BeanieExpression::StringLiteral(s) => {
                let chars = str_to_chars(s.as_str());
                let trimmed = trim_quotes(&chars);
                Ok(chars_to_string(&trimmed))
            },
        }
    }
}

} // verus!
