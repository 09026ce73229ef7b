//! The interpreter's general guarantees, stated and proved once.

use vstd::prelude::*;
use crate::context::{
    BeanieRuntimeContext,
    spec_pos_in_group,
    spec_find_constant,
    spec_find_function,
};
use crate::data_type::DataType;
use crate::beanie_context::BeanieContext;
use crate::beanie_interpreter::spec_contextualize_ctx;
use crate::effects::spec_truncations;
use crate::engine::{spec_eval_to_string, spec_eval_answers, spec_resolve_at};
use crate::errors::ErrorView;
use crate::expression::BeanieExpression;
use crate::function::Function;
use crate::idents::{
    is_ident_start,
    is_ident_char,
    ident_end,
    is_builtin,
    spec_suffixed,
    lemma_suffixed_disjoint,
};

verus! {

/// Domain consistency: evaluating one expression twice under the same domain
/// tag and the same context gives the identical textual result.  Every
/// evaluation returns exactly what `spec_eval_to_string` names, and nothing
/// mutable feeds into it, so two results pinned to it are one.
pub proof fn lemma_domain_consistency(
    e: BeanieExpression,
    ctx: BeanieRuntimeContext,
    fuel: nat,
    r1: Result<Seq<char>, ErrorView>,
    r2: Result<Seq<char>, ErrorView>,
)
    requires
        r1 == spec_eval_to_string(e, ctx, fuel),
        r2 == spec_eval_to_string(e, ctx, fuel),
    ensures
        r1 == r2,
{
}

/// The same, for the answer lists of an evaluation under an explicit domain.
pub proof fn lemma_answers_deterministic(
    e: BeanieExpression,
    ctx: BeanieRuntimeContext,
    domain: DataType,
    fuel: nat,
    r1: Result<Seq<Seq<char>>, ErrorView>,
    r2: Result<Seq<Seq<char>>, ErrorView>,
)
    requires
        r1 == spec_eval_answers(e, ctx, domain, fuel),
        r2 == spec_eval_answers(e, ctx, domain, fuel),
    ensures
        r1 == r2,
{
}

proof fn lemma_ident_end_all(text: Seq<char>, i: int)
    requires
        0 <= i <= text.len(),
        forall|k: int| i <= k < text.len() ==> is_ident_char(#[trigger] text[k]),
    ensures
        ident_end(text, i) == text.len(),
    decreases text.len() - i,
{
    if i < text.len() {
        lemma_ident_end_all(text, i + 1);
    }
}

/// Positional disambiguation: resolving a constant name whose group
/// expression yields several values binds the value at the name's position
/// within its declared group.  For a group `[x, y]` whose expression yields
/// two roots, `x` resolves to the first and `y` to the second.
pub proof fn lemma_positional_disambiguation(
    text: Seq<char>,
    ctx: BeanieRuntimeContext,
    bound: Seq<String>,
    domain: DataType,
    fuel: nat,
    vals: Seq<Seq<char>>,
)
    requires
        text.len() > 0,
        is_ident_start(text[0]),
        forall|k: int| 0 <= k < text.len() ==> is_ident_char(#[trigger] text[k]),
        spec_pos_in_group(bound, text, 0) is None,
        !is_builtin(text),
        ctx.spec_constant(text) is Some,
        fuel > 0,
        spec_eval_answers(
            ctx.constants@[ctx.spec_constant(text)->Some_0.0].1,
            ctx,
            domain,
            (fuel - 1) as nat,
        ) == Ok::<Seq<Seq<char>>, ErrorView>(vals),
        vals.len() > 1,
        ctx.spec_constant(text)->Some_0.1 < vals.len(),
    ensures
        spec_resolve_at(text, 0, ctx, bound, domain, fuel) == Ok::<Seq<char>, ErrorView>(
            seq!['('] + vals[ctx.spec_constant(text)->Some_0.1] + seq![')'],
        ),
{
    lemma_ident_end_all(text, 0);
    assert(text.subrange(0, text.len() as int) =~= text);
    let p = ctx.spec_constant(text)->Some_0.1;
    let piece = seq!['('] + vals[p] + seq![')'];
    assert(spec_resolve_at(text, text.len() as int, ctx, bound, domain, fuel) == Ok::<
        Seq<char>,
        ErrorView,
    >(Seq::empty()));
    assert(piece + Seq::<char>::empty() =~= piece);
}

/// Positional disambiguation, at the evaluation level: evaluating a math
/// expression that is exactly one constant name, under a domain with a
/// backend, hands the backend the parenthesized value at the name's declared
/// group position, and returns whatever the backend answers.
pub proof fn lemma_positional_evaluation(
    e: BeanieExpression,
    text: Seq<char>,
    ctx: BeanieRuntimeContext,
    domain: DataType,
    fuel: nat,
    vals: Seq<Seq<char>>,
)
    requires
        e matches BeanieExpression::Math(t, _) && t@ == text,
        !(domain is Irrational),
        text.len() > 0,
        is_ident_start(text[0]),
        forall|k: int| 0 <= k < text.len() ==> is_ident_char(#[trigger] text[k]),
        !is_builtin(text),
        ctx.spec_constant(text) is Some,
        fuel > 0,
        spec_eval_answers(
            ctx.constants@[ctx.spec_constant(text)->Some_0.0].1,
            ctx,
            domain,
            (fuel - 1) as nat,
        ) == Ok::<Seq<Seq<char>>, ErrorView>(vals),
        vals.len() > 1,
        ctx.spec_constant(text)->Some_0.1 < vals.len(),
    ensures
        spec_eval_answers(e, ctx, domain, fuel) == (match crate::backend::spec_backend(
            domain,
            seq!['('] + vals[ctx.spec_constant(text)->Some_0.1] + seq![')'],
        ) {
            Some(vs) => Ok::<Seq<Seq<char>>, ErrorView>(vs),
            None => Err::<Seq<Seq<char>>, ErrorView>(
                ErrorView::MathFailure(
                    seq!['('] + vals[ctx.spec_constant(text)->Some_0.1] + seq![')'],
                ),
            ),
        }),
{
    lemma_positional_disambiguation(text, ctx, Seq::empty(), domain, fuel, vals);
}

/// Unresolvable identifier: a lone identifier that is no bound parameter, no
/// built-in, no constant and no function is a fatal resolution error, never a
/// silent zero.
pub proof fn lemma_unknown_identifier_fatal(
    text: Seq<char>,
    ctx: BeanieRuntimeContext,
    bound: Seq<String>,
    domain: DataType,
    fuel: nat,
)
    requires
        text.len() > 0,
        is_ident_start(text[0]),
        forall|k: int| 0 <= k < text.len() ==> is_ident_char(#[trigger] text[k]),
        spec_pos_in_group(bound, text, 0) is None,
        !is_builtin(text),
        ctx.spec_constant(text) is None,
        ctx.spec_function(text) is None,
    ensures
        spec_resolve_at(text, 0, ctx, bound, domain, fuel) == Err::<Seq<char>, ErrorView>(
            ErrorView::UnknownIdentifier(text),
        ),
{
    lemma_ident_end_all(text, 0);
    assert(text.subrange(0, text.len() as int) =~= text);
}

/// Import hygiene: user names rewritten with distinct suffixes of one length
/// never collide, whatever the names were.  Two imported files may both
/// declare a constant `r`: suffixed, the two declarations are different
/// names and cannot interfere.
pub proof fn lemma_import_hygiene(a: Seq<char>, b: Seq<char>, s1: Seq<char>, s2: Seq<char>)
    requires
        s1.len() == s2.len(),
        s1.len() > 0,
        s1 != s2,
    ensures
        spec_suffixed(a, s1) != spec_suffixed(b, s2),
{
    lemma_suffixed_disjoint(a, b, s1, s2);
}

/// Import hygiene at the context level: the foreign contexts of two imports
/// rewritten with distinct suffixes of one length share no user-declared
/// identifier at all — no constant name and no function name of one occurs
/// among the other's.
pub proof fn lemma_foreign_contexts_disjoint(
    p1: BeanieContext,
    s1: Seq<char>,
    sp1: BeanieContext,
    c1: BeanieRuntimeContext,
    p2: BeanieContext,
    s2: Seq<char>,
    sp2: BeanieContext,
    c2: BeanieRuntimeContext,
)
    requires
        p1.spec_suffixed_program(s1, sp1),
        spec_contextualize_ctx(sp1, c1),
        p2.spec_suffixed_program(s2, sp2),
        spec_contextualize_ctx(sp2, c2),
        s1.len() == s2.len(),
        s1.len() > 0,
        s1 != s2,
    ensures
        forall|g1: int, i1: int, g2: int, i2: int|
            0 <= g1 < c1.constants@.len() && 0 <= i1 < c1.constants@[g1].0@.len() && 0 <= g2
                < c2.constants@.len() && 0 <= i2 < c2.constants@[g2].0@.len() ==> (#[trigger]
            c1.constants@[g1].0@[i1])@ != (#[trigger] c2.constants@[g2].0@[i2])@,
        forall|k1: int, k2: int|
            0 <= k1 < c1.functions@.len() && 0 <= k2 < c2.functions@.len() ==> (#[trigger]
            c1.functions@[k1]).name@ != (#[trigger] c2.functions@[k2]).name@,
        forall|g1: int, i1: int, k2: int|
            0 <= g1 < c1.constants@.len() && 0 <= i1 < c1.constants@[g1].0@.len() && 0 <= k2
                < c2.functions@.len() ==> (#[trigger] c1.constants@[g1].0@[i1])@ != (#[trigger]
            c2.functions@[k2]).name@,
        forall|k1: int, g2: int, i2: int|
            0 <= k1 < c1.functions@.len() && 0 <= g2 < c2.constants@.len() && 0 <= i2
                < c2.constants@[g2].0@.len() ==> (#[trigger] c1.functions@[k1]).name@ != (
            #[trigger] c2.constants@[g2].0@[i2])@,
{
    assert forall|g1: int, i1: int, g2: int, i2: int|
        0 <= g1 < c1.constants@.len() && 0 <= i1 < c1.constants@[g1].0@.len() && 0 <= g2
            < c2.constants@.len() && 0 <= i2 < c2.constants@[g2].0@.len() implies (#[trigger]
    c1.constants@[g1].0@[i1])@ != (#[trigger] c2.constants@[g2].0@[i2])@ by {
        assert(c1.constants@[g1].0@[i1]@ == spec_suffixed(p1.constants@[g1].0@[i1]@, s1));
        assert(c2.constants@[g2].0@[i2]@ == spec_suffixed(p2.constants@[g2].0@[i2]@, s2));
        lemma_suffixed_disjoint(p1.constants@[g1].0@[i1]@, p2.constants@[g2].0@[i2]@, s1, s2);
    }
    assert forall|k1: int, k2: int|
        0 <= k1 < c1.functions@.len() && 0 <= k2 < c2.functions@.len() implies (#[trigger]
    c1.functions@[k1]).name@ != (#[trigger] c2.functions@[k2]).name@ by {
        assert(c1.functions@[k1].name@ == spec_suffixed(p1.functions@[k1].name@, s1));
        assert(c2.functions@[k2].name@ == spec_suffixed(p2.functions@[k2].name@, s2));
        lemma_suffixed_disjoint(p1.functions@[k1].name@, p2.functions@[k2].name@, s1, s2);
    }
    assert forall|g1: int, i1: int, k2: int|
        0 <= g1 < c1.constants@.len() && 0 <= i1 < c1.constants@[g1].0@.len() && 0 <= k2
            < c2.functions@.len() implies (#[trigger] c1.constants@[g1].0@[i1])@ != (#[trigger]
    c2.functions@[k2]).name@ by {
        assert(c1.constants@[g1].0@[i1]@ == spec_suffixed(p1.constants@[g1].0@[i1]@, s1));
        assert(c2.functions@[k2].name@ == spec_suffixed(p2.functions@[k2].name@, s2));
        lemma_suffixed_disjoint(p1.constants@[g1].0@[i1]@, p2.functions@[k2].name@, s1, s2);
    }
    assert forall|k1: int, g2: int, i2: int|
        0 <= k1 < c1.functions@.len() && 0 <= g2 < c2.constants@.len() && 0 <= i2
            < c2.constants@[g2].0@.len() implies (#[trigger] c1.functions@[k1]).name@ != (
    #[trigger] c2.constants@[g2].0@[i2])@ by {
        assert(c1.functions@[k1].name@ == spec_suffixed(p1.functions@[k1].name@, s1));
        assert(c2.constants@[g2].0@[i2]@ == spec_suffixed(p2.constants@[g2].0@[i2]@, s2));
        lemma_suffixed_disjoint(p1.functions@[k1].name@, p2.constants@[g2].0@[i2]@, s1, s2);
    }
}

/// A failed function search means no function bears the name.
pub proof fn lemma_find_function_none(functions: Seq<Function>, name: Seq<char>, k: int)
    requires
        0 <= k <= functions.len(),
        spec_find_function(functions, name, k) is None,
    ensures
        forall|j: int| k <= j < functions.len() ==> (#[trigger] functions[j]).name@ != name,
    decreases functions.len() - k,
{
    if k < functions.len() {
        lemma_find_function_none(functions, name, k + 1);
    }
}

/// A function bearing the name makes the search succeed.
pub proof fn lemma_find_function_some(functions: Seq<Function>, name: Seq<char>, k: int, j: int)
    requires
        0 <= k <= j < functions.len(),
        functions[j].name@ == name,
    ensures
        spec_find_function(functions, name, k) is Some,
    decreases j - k,
{
    if functions[k].name@ != name {
        lemma_find_function_some(functions, name, k + 1, j);
    }
}

/// Idempotent `Use`: registering an import under a name no function carries
/// yet leaves exactly one function of that name, and the name then resolves
/// — so a second registration of the same path finds the name taken and is a
/// no-op, by `UseOperation::execute`'s contract.
pub proof fn lemma_use_idempotent(
    before: BeanieRuntimeContext,
    after: BeanieRuntimeContext,
    stem: Seq<char>,
)
    requires
        before.spec_function(stem) is None,
        after.functions@.len() == before.functions@.len() + 1,
        after.functions@.subrange(0, before.functions@.len() as int) == before.functions@,
        after.functions@.last().name@ == stem,
    ensures
        after.spec_function(stem) is Some,
        forall|j1: int, j2: int|
            0 <= j1 < after.functions@.len() && 0 <= j2 < after.functions@.len() && (#[trigger]
            after.functions@[j1]).name@ == stem && (#[trigger] after.functions@[j2]).name@ == stem
                ==> j1 == j2,
{
    lemma_find_function_none(before.functions@, stem, 0);
    lemma_find_function_some(
        after.functions@,
        stem,
        0,
        before.functions@.len() as int,
    );
    assert forall|j: int| 0 <= j < before.functions@.len() implies (#[trigger] after.functions@[
        j
    ]).name@ != stem by {
        assert(after.functions@[j] == before.functions@[j]);
    }
}

proof fn lemma_truncations_shape(cleaned: bool, targets_exist: Seq<bool>)
    ensures
        spec_truncations(cleaned, targets_exist).len() == targets_exist.len(),
        forall|i: int|
            0 <= i < targets_exist.len() ==> ((#[trigger] spec_truncations(
                cleaned,
                targets_exist,
            )[i]) <==> (targets_exist[i] && !cleaned && (forall|j: int|
                0 <= j < i ==> !targets_exist[j]))),
    decreases targets_exist.len(),
{
    if targets_exist.len() > 0 {
        lemma_truncations_shape(cleaned || targets_exist[0], targets_exist.drop_first());
        let whole = spec_truncations(cleaned, targets_exist);
        let rest = spec_truncations(cleaned || targets_exist[0], targets_exist.drop_first());
        assert forall|i: int|
            0 <= i < targets_exist.len() implies ((#[trigger] whole[i]) <==> (targets_exist[i]
            && !cleaned && (forall|j: int| 0 <= j < i ==> !targets_exist[j]))) by {
            if i > 0 {
                assert(whole[i] == rest[i - 1]);
                assert forall|j: int|
                    0 <= j < i - 1 implies targets_exist.drop_first()[j] == targets_exist[j + 1]
                    by {}
                if whole[i] {
                    assert(targets_exist[i]);
                    assert(!targets_exist[0]);
                    assert forall|j: int| 0 <= j < i implies !targets_exist[j] by {
                        if j > 0 {
                            assert(!targets_exist.drop_first()[j - 1]);
                        }
                    }
                } else {
                    if targets_exist[i] && !cleaned && (forall|j: int|
                        0 <= j < i ==> !targets_exist[j]) {
                        assert(targets_exist.drop_first()[i - 1] == targets_exist[i]);
                        assert forall|j: int| 0 <= j < i - 1 implies !targets_exist.drop_first()[
                            j
                        ] by {
                            assert(!targets_exist[j + 1]);
                        }
                        assert(rest[i - 1]);
                    }
                }
            }
        }
    }
}

/// Output truncation: over the writes of one run, performed in order against
/// targets whose existence the performer reports, exactly the first write
/// whose target already exists truncates; every other write appends.  A
/// fresh run starts from a fresh flag and truncates again exactly once.
pub proof fn lemma_truncate_once(targets_exist: Seq<bool>)
    ensures
        spec_truncations(false, targets_exist).len() == targets_exist.len(),
        forall|i: int|
            0 <= i < targets_exist.len() ==> ((#[trigger] spec_truncations(
                false,
                targets_exist,
            )[i]) <==> (targets_exist[i] && (forall|j: int| 0 <= j < i ==> !targets_exist[j]))),
        forall|i: int, j: int|
            0 <= i < targets_exist.len() && 0 <= j < targets_exist.len()
                && #[trigger] spec_truncations(false, targets_exist)[i] && #[trigger]
            spec_truncations(false, targets_exist)[j] ==> i == j,
{
    lemma_truncations_shape(false, targets_exist);
    assert forall|i: int, j: int|
        0 <= i < targets_exist.len() && 0 <= j < targets_exist.len() && #[trigger]
    spec_truncations(false, targets_exist)[i] && #[trigger] spec_truncations(
        false,
        targets_exist,
    )[j] implies i == j by {
        if i < j {
            assert(!targets_exist[i]);
        }
        if j < i {
            assert(!targets_exist[j]);
        }
    }
}

/// Input binding is positional: a name's binding position is its index in
/// the declared inputs list, fixed at declaration, whatever order the `In`
/// operations execute in.  With inputs `[a, b]`, `a` takes the parameter at
/// position zero and `b` the one at position one.
pub proof fn lemma_input_positions(a: String, b: String)
    requires
        a@ != b@,
    ensures
        spec_pos_in_group(seq![a, b], a@, 0) == Some(0int),
        spec_pos_in_group(seq![a, b], b@, 0) == Some(1int),
{
    assert(spec_pos_in_group(seq![a, b], b@, 0) == spec_pos_in_group(seq![a, b], b@, 1));
}

/// A failed constant search means no group declares the name.
pub proof fn lemma_find_constant_none(
    constants: Seq<(Vec<String>, BeanieExpression)>,
    name: Seq<char>,
    g: int,
)
    requires
        0 <= g <= constants.len(),
        spec_find_constant(constants, name, g) is None,
    ensures
        forall|j: int|
            g <= j < constants.len() ==> spec_pos_in_group(
                (#[trigger] constants[j]).0@,
                name,
                0,
            ) is None,
    decreases constants.len() - g,
{
    if g < constants.len() {
        lemma_find_constant_none(constants, name, g + 1);
    }
}

/// Binding two fresh input names in either order leaves each name bound to
/// its own value: the bindings commute because each lands in its own
/// single-name group and lookup goes by name.
pub proof fn lemma_input_binding_commutes(
    ctx0: BeanieRuntimeContext,
    ctx_ab: BeanieRuntimeContext,
    ctx_ba: BeanieRuntimeContext,
    mid_a: BeanieRuntimeContext,
    mid_b: BeanieRuntimeContext,
    a: String,
    b: String,
    ea: BeanieExpression,
    eb: BeanieExpression,
)
    requires
        a@ != b@,
        ctx0.spec_constant(a@) is None,
        ctx0.spec_constant(b@) is None,
        ctx0.spec_bind_result(a, ea, mid_a),
        mid_a.spec_bind_result(b, eb, ctx_ab),
        ctx0.spec_bind_result(b, eb, mid_b),
        mid_b.spec_bind_result(a, ea, ctx_ba),
    ensures
        ctx_ab.spec_constant(a@) matches Some((g1, p1)) && ctx_ab.constants@[g1].1 == ea && p1
            == 0,
        ctx_ab.spec_constant(b@) matches Some((g2, p2)) && ctx_ab.constants@[g2].1 == eb && p2
            == 0,
        ctx_ba.spec_constant(a@) matches Some((g3, p3)) && ctx_ba.constants@[g3].1 == ea && p3
            == 0,
        ctx_ba.spec_constant(b@) matches Some((g4, p4)) && ctx_ba.constants@[g4].1 == eb && p4
            == 0,
{
    let n0 = ctx0.constants@.len() as int;
    lemma_find_constant_none(ctx0.constants@, a@, 0);
    lemma_find_constant_none(ctx0.constants@, b@, 0);
    // First order: a then b.
    assert(mid_a.constants@.len() == n0 + 1);
    assert(mid_a.constants@[n0].0@ =~= seq![a]);
    assert(mid_a.constants@[n0].1 == ea);
    assert forall|j: int| 0 <= j < n0 implies #[trigger] mid_a.constants@[j] == ctx0.constants@[
        j
    ] by {
        assert(mid_a.constants@.subrange(0, n0)[j] == mid_a.constants@[j]);
    }
    lemma_single_group_other(a, b@);
    lemma_single_group_other(b, a@);
    assert(mid_a.spec_constant(b@) is None) by {
        assert(spec_pos_in_group(mid_a.constants@[n0].0@, b@, 0) is None);
        lemma_constant_extend_none(ctx0.constants@, mid_a.constants@, b@);
    }
    assert(ctx_ab.constants@.len() == n0 + 2);
    assert(ctx_ab.constants@[n0 + 1].0@ =~= seq![b]);
    assert(ctx_ab.constants@[n0 + 1].1 == eb);
    assert forall|j: int| 0 <= j < n0 + 1 implies #[trigger] ctx_ab.constants@[j]
        == mid_a.constants@[j] by {
        assert(ctx_ab.constants@.subrange(0, n0 + 1)[j] == ctx_ab.constants@[j]);
    }
    assert forall|j: int| 0 <= j < n0 implies spec_pos_in_group(
        (#[trigger] ctx_ab.constants@[j]).0@,
        a@,
        0,
    ) is None && spec_pos_in_group(ctx_ab.constants@[j].0@, b@, 0) is None by {
        assert(ctx_ab.constants@[j] == ctx0.constants@[j]);
    }
    assert(spec_pos_in_group(ctx_ab.constants@[n0].0@, a@, 0) == Some(0int));
    lemma_constant_lookup_late(ctx_ab.constants@, a@, n0);
    assert(spec_pos_in_group(ctx_ab.constants@[n0].0@, b@, 0) is None);
    assert(spec_pos_in_group(ctx_ab.constants@[n0 + 1].0@, b@, 0) == Some(0int));
    lemma_constant_lookup_late(ctx_ab.constants@, b@, n0 + 1);
    // Second order: b then a.
    assert(mid_b.constants@.len() == n0 + 1);
    assert(mid_b.constants@[n0].0@ =~= seq![b]);
    assert(mid_b.constants@[n0].1 == eb);
    assert forall|j: int| 0 <= j < n0 implies #[trigger] mid_b.constants@[j] == ctx0.constants@[
        j
    ] by {
        assert(mid_b.constants@.subrange(0, n0)[j] == mid_b.constants@[j]);
    }
    assert(mid_b.spec_constant(a@) is None) by {
        assert(spec_pos_in_group(mid_b.constants@[n0].0@, a@, 0) is None);
        lemma_constant_extend_none(ctx0.constants@, mid_b.constants@, a@);
    }
    assert(ctx_ba.constants@.len() == n0 + 2);
    assert(ctx_ba.constants@[n0 + 1].0@ =~= seq![a]);
    assert(ctx_ba.constants@[n0 + 1].1 == ea);
    assert forall|j: int| 0 <= j < n0 + 1 implies #[trigger] ctx_ba.constants@[j]
        == mid_b.constants@[j] by {
        assert(ctx_ba.constants@.subrange(0, n0 + 1)[j] == ctx_ba.constants@[j]);
    }
    assert forall|j: int| 0 <= j < n0 implies spec_pos_in_group(
        (#[trigger] ctx_ba.constants@[j]).0@,
        a@,
        0,
    ) is None && spec_pos_in_group(ctx_ba.constants@[j].0@, b@, 0) is None by {
        assert(ctx_ba.constants@[j] == ctx0.constants@[j]);
    }
    assert(spec_pos_in_group(ctx_ba.constants@[n0].0@, b@, 0) == Some(0int));
    lemma_constant_lookup_late(ctx_ba.constants@, b@, n0);
    assert(spec_pos_in_group(ctx_ba.constants@[n0].0@, a@, 0) is None);
    assert(spec_pos_in_group(ctx_ba.constants@[n0 + 1].0@, a@, 0) == Some(0int));
    lemma_constant_lookup_late(ctx_ba.constants@, a@, n0 + 1);
}

proof fn lemma_single_group_other(x: String, name: Seq<char>)
    requires
        x@ != name,
    ensures
        spec_pos_in_group(seq![x], name, 0) is None,
{
    assert(spec_pos_in_group(seq![x], name, 1) is None);
}

/// Searching constants that do not declare a name up to position `g` lands
/// at `g` when group `g` declares it first.
proof fn lemma_constant_lookup_late(
    constants: Seq<(Vec<String>, BeanieExpression)>,
    name: Seq<char>,
    g: int,
)
    requires
        0 <= g < constants.len(),
        forall|j: int|
            0 <= j < g ==> spec_pos_in_group((#[trigger] constants[j]).0@, name, 0) is None,
        spec_pos_in_group(constants[g].0@, name, 0) == Some(0int),
    ensures
        spec_find_constant(constants, name, 0) == Some((g, 0int)),
{
    lemma_constant_lookup_late_from(constants, name, g, 0);
}

proof fn lemma_constant_lookup_late_from(
    constants: Seq<(Vec<String>, BeanieExpression)>,
    name: Seq<char>,
    g: int,
    k: int,
)
    requires
        0 <= k <= g < constants.len(),
        forall|j: int|
            k <= j < g ==> spec_pos_in_group((#[trigger] constants[j]).0@, name, 0) is None,
        spec_pos_in_group(constants[g].0@, name, 0) == Some(0int),
    ensures
        spec_find_constant(constants, name, k) == Some((g, 0int)),
    decreases g - k,
{
    if k < g {
        lemma_constant_lookup_late_from(constants, name, g, k + 1);
    }
}

/// A name absent from a prefix of groups stays absent after appending groups
/// that do not declare it ... the appended single-name group here declares a
/// different name.
proof fn lemma_constant_extend_none(
    shorter: Seq<(Vec<String>, BeanieExpression)>,
    longer: Seq<(Vec<String>, BeanieExpression)>,
    name: Seq<char>,
)
    requires
        spec_find_constant(shorter, name, 0) is None,
        longer.len() == shorter.len() + 1,
        forall|j: int| 0 <= j < shorter.len() ==> #[trigger] longer[j] == shorter[j],
        spec_pos_in_group(longer[shorter.len() as int].0@, name, 0) is None,
    ensures
        spec_find_constant(longer, name, 0) is None,
{
    lemma_find_constant_none(shorter, name, 0);
    lemma_constant_none_from(longer, name, 0, shorter.len() as int);
}

proof fn lemma_constant_none_from(
    constants: Seq<(Vec<String>, BeanieExpression)>,
    name: Seq<char>,
    k: int,
    last: int,
)
    requires
        0 <= k <= constants.len(),
        last == constants.len() - 1,
        forall|j: int|
            0 <= j < constants.len() ==> spec_pos_in_group(
                (#[trigger] constants[j]).0@,
                name,
                0,
            ) is None,
    ensures
        spec_find_constant(constants, name, k) is None,
    decreases constants.len() - k,
{
    if k < constants.len() {
        lemma_constant_none_from(constants, name, k + 1, last);
    }
}

} // verus!
