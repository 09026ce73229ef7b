//! The program driver: turns a parsed program into a runtime context with an
//! ordered operation list, and executes the operations in order.

use vstd::prelude::*;
use crate::beanie_context::{BeanieContext, ImportSource, spec_imports_wf};
use crate::context::BeanieRuntimeContext;
use crate::data_type::DataType;
use crate::effects::{RunConfig, RunEffects};
use crate::errors::{BeanieError, ErrorView};
use crate::expression::{BeanieExpression, ExpressionType, spec_expression_type, spec_numeric};
use crate::instruction::{Instruction, OperationType};
use crate::operations::{
    Operation,
    UseOperation,
    InOperation,
    OutOperation,
    PrintOperation,
    GraphOperation,
    spec_set_argument,
    spec_lookup_keyword,
    spec_out_valid_arguments,
    spec_graph_valid_arguments,
};
use crate::text::str_to_chars;

verus! {

/// The declared input names of a program: the `In` instructions' identifier
/// texts, in instruction order.
pub open spec fn spec_collect_inputs(ins: Seq<Instruction>, k: int) -> Seq<String>
    decreases ins.len() - k when 0 <= k <= ins.len()
{
    if k >= ins.len() {
        Seq::empty()
    } else {
        let head: Seq<String> = match ins[k].operation_type {
            OperationType::In => match ins[k].expression {
                BeanieExpression::Math(t, _) => seq![t],
                _ => Seq::empty(),
            },
            _ => Seq::empty(),
        };
        head + spec_collect_inputs(ins, k + 1)
    }
}

/// The declared outputs of a program: the `Out` instructions' expressions, in
/// instruction order.
pub open spec fn spec_collect_outputs(ins: Seq<Instruction>, k: int) -> Seq<BeanieExpression>
    decreases ins.len() - k when 0 <= k <= ins.len()
{
    if k >= ins.len() {
        Seq::empty()
    } else {
        let head: Seq<BeanieExpression> = match ins[k].operation_type {
            OperationType::Out => match ins[k].expression {
                BeanieExpression::Math(_, _) => seq![ins[k].expression],
                _ => Seq::empty(),
            },
            _ => Seq::empty(),
        };
        head + spec_collect_outputs(ins, k + 1)
    }
}

/// An argument list folded through validation: each source argument must be
/// a recognized name with the right type, and lands in the accumulated list
/// by replace-or-append.
pub open spec fn spec_apply_args(
    src: Seq<(String, BeanieExpression)>,
    valid: Seq<(Seq<char>, ExpressionType)>,
    k: int,
    acc: Seq<(String, BeanieExpression)>,
) -> Result<Seq<(String, BeanieExpression)>, ErrorView>
    decreases src.len() - k when 0 <= k <= src.len()
{
    if k >= src.len() {
        Ok(acc)
    } else {
        match spec_lookup_keyword(valid, src[k].0@, 0) {
            None => Err(ErrorView::UnknownArgument(src[k].0@)),
            Some(t) => if t == spec_expression_type(src[k].1) {
                spec_apply_args(src, valid, k + 1, spec_set_argument(acc, src[k].0, src[k].1))
            } else {
                Err(ErrorView::ArgumentType(src[k].0@))
            },
        }
    }
}

/// Whether the fold succeeds depends on the source arguments and the
/// accepted names alone, never on what was accumulated so far.
pub proof fn lemma_apply_args_okness(
    src: Seq<(String, BeanieExpression)>,
    valid: Seq<(Seq<char>, ExpressionType)>,
    k: int,
    acc1: Seq<(String, BeanieExpression)>,
    acc2: Seq<(String, BeanieExpression)>,
)
    requires
        0 <= k <= src.len(),
    ensures
        (spec_apply_args(src, valid, k, acc1) is Ok) == (spec_apply_args(src, valid, k, acc2)
            is Ok),
    decreases src.len() - k,
{
    if k < src.len() {
        match spec_lookup_keyword(valid, src[k].0@, 0) {
            None => {},
            Some(t) => {
                if t == spec_expression_type(src[k].1) {
                    lemma_apply_args_okness(
                        src,
                        valid,
                        k + 1,
                        spec_set_argument(acc1, src[k].0, src[k].1),
                        spec_set_argument(acc2, src[k].0, src[k].1),
                    );
                }
            },
        }
    }
}

/// The default arguments a `Graph` operation starts from.
pub open spec fn spec_graph_defaults(s: Seq<(String, BeanieExpression)>) -> bool {
    &&& s.len() == 6
    &&& s[0].0@ == "min_x"@ && s[0].1 == BeanieExpression::SimpleNumber(-10i64)
    &&& s[1].0@ == "min_y"@ && s[1].1 == BeanieExpression::SimpleNumber(-10i64)
    &&& s[2].0@ == "max_x"@ && s[2].1 == BeanieExpression::SimpleNumber(100i64)
    &&& s[3].0@ == "max_y"@ && s[3].1 == BeanieExpression::SimpleNumber(100i64)
    &&& s[4].0@ == "step_x"@ && s[4].1 == BeanieExpression::SimpleNumber(10i64)
    &&& s[5].0@ == "step_y"@ && s[5].1 == BeanieExpression::SimpleNumber(10i64)
}

/// How one parsed instruction corresponds to the operation built from it.
pub open spec fn spec_op_matches(ins: Instruction, op: Operation) -> bool {
    match ins.operation_type {
        OperationType::Use => {
            &&& ins.expression matches BeanieExpression::FilePath(p)
            &&& op matches Operation::Use(u) && u.file_path == p
            &&& ins.arguments@.len() == 0
        },
        OperationType::In => {
            &&& ins.expression matches BeanieExpression::Math(t, _)
            &&& op matches Operation::In(i) && i.input_name == t
            &&& ins.arguments@.len() == 0
        },
        OperationType::Print => {
            &&& ins.expression matches BeanieExpression::Math(_, _)
            &&& op matches Operation::Print(pr) && pr.expression == ins.expression
            &&& ins.arguments@.len() == 0
        },
        OperationType::Out => {
            &&& ins.expression matches BeanieExpression::Math(_, _)
            &&& op matches Operation::Out(o) && o.expression == ins.expression
                && spec_apply_args(ins.arguments@, spec_out_valid_arguments(), 0, Seq::empty())
                == Ok::<Seq<(String, BeanieExpression)>, ErrorView>(o.arguments@)
        },
        OperationType::Graph => {
            &&& ins.expression matches BeanieExpression::Math(t, _)
            &&& op matches Operation::Graph(gr) && gr.function_name == t && (exists|
                init: Seq<(String, BeanieExpression)>,
            |
                spec_graph_defaults(init) && spec_apply_args(
                    ins.arguments@,
                    spec_graph_valid_arguments(),
                    0,
                    init,
                ) == Ok::<Seq<(String, BeanieExpression)>, ErrorView>(gr.arguments@))
        },
    }
}

/// Valid constant groups: numeric expressions, and no name declared twice —
/// neither in an earlier group nor earlier in its own group.
pub open spec fn spec_constants_valid(cs: Seq<(Vec<String>, BeanieExpression)>) -> bool {
    &&& forall|g: int| 0 <= g < cs.len() ==> spec_numeric(#[trigger] cs[g].1)
    &&& forall|g: int, i: int|
        0 <= g < cs.len() && 0 <= i < cs[g].0@.len() ==> {
            &&& crate::context::spec_find_constant(cs.take(g), (#[trigger] cs[g].0@[i])@, 0)
                is None
            &&& crate::context::spec_pos_in_group(cs[g].0@, cs[g].0@[i]@, 0) == Some(i)
        }
}

/// Valid functions: math bodies, and names fresh among the constants and the
/// functions declared before them.
pub open spec fn spec_functions_valid(
    cs: Seq<(Vec<String>, BeanieExpression)>,
    fs: Seq<crate::function::Function>,
) -> bool {
    forall|k: int|
        0 <= k < fs.len() ==> {
            &&& ((#[trigger] fs[k]).expression matches BeanieExpression::Math(_, _))
            &&& crate::context::spec_find_constant(cs, fs[k].name@, 0) is None
            &&& crate::context::spec_find_function(fs.take(k), fs[k].name@, 0) is None
        }
}

/// A valid instruction: the expression kind its operation takes, and
/// arguments the operation accepts.
pub open spec fn spec_instruction_valid(ins: Instruction) -> bool {
    match ins.operation_type {
        OperationType::Use => (ins.expression matches BeanieExpression::FilePath(_))
            && ins.arguments@.len() == 0,
        OperationType::In => (ins.expression matches BeanieExpression::Math(_, _))
            && ins.arguments@.len() == 0,
        OperationType::Print => (ins.expression matches BeanieExpression::Math(_, _))
            && ins.arguments@.len() == 0,
        OperationType::Out => (ins.expression matches BeanieExpression::Math(_, _))
            && spec_apply_args(
            ins.arguments@,
            spec_out_valid_arguments(),
            0,
            Seq::empty(),
        ) is Ok,
        OperationType::Graph => (ins.expression matches BeanieExpression::Math(_, _)) && (forall|
            init: Seq<(String, BeanieExpression)>,
        |
            spec_graph_defaults(init) ==> spec_apply_args(
                ins.arguments@,
                spec_graph_valid_arguments(),
                0,
                init,
            ) is Ok),
    }
}

/// A program every check of `contextualize` accepts.
pub open spec fn spec_program_valid(p: BeanieContext) -> bool {
    &&& spec_constants_valid(p.constants@)
    &&& spec_functions_valid(p.constants@, p.functions@)
    &&& forall|n: int|
        0 <= n < p.instructions@.len() ==> spec_instruction_valid(
            #[trigger] p.instructions@[n],
        )
}

/// How a runtime context relates to the parsed program it was built from:
/// constants and functions carried over, inputs and outputs collected from
/// the instructions, everything well formed with no foreign contexts.
pub open spec fn spec_contextualize_ctx(program: BeanieContext, ctx: BeanieRuntimeContext) -> bool {
    &&& ctx.wf()
    &&& forall|k: int|
        0 <= k < ctx.functions@.len() ==> (#[trigger] ctx.functions@[k].external_context)
            is None
    &&& ctx.beanie_file_path == program.beanie_file_path
    &&& ctx.constants@ == program.constants@
    &&& ctx.functions@ == program.functions@
    &&& ctx.inputs@ == spec_collect_inputs(program.instructions@, 0)
    &&& ctx.outputs@ == spec_collect_outputs(program.instructions@, 0)
    &&& forall|o: int|
        0 <= o < ctx.outputs@.len() ==> ((#[trigger] ctx.outputs@[o]) matches
            BeanieExpression::Math(_, _))
}

/// Turns a parsed program into its runtime context and ordered operations.
///
/// Constant groups and functions carry over as they are; the declared inputs
/// and outputs are collected from the `In` and `Out` instructions; every
/// instruction becomes one operation with its arguments validated.  A
/// duplicate constant or function name, a non-numeric constant, a function
/// whose body is not math, an instruction whose expression has the wrong
/// kind, and an invalid argument are all fatal.
pub fn contextualize(program: BeanieContext) -> (r: Result<
    (BeanieRuntimeContext, Vec<Operation>),
    BeanieError,
>)
    requires
        forall|k: int|
            0 <= k < program.functions@.len() ==> (#[trigger] program.functions@[
                k
            ].external_context) is None,
    ensures
        match r {
            Ok((ctx, ops)) => {
                &&& spec_contextualize_ctx(program, ctx)
                &&& ops@.len() == program.instructions@.len()
                &&& forall|n: int|
                    0 <= n < ops@.len() ==> spec_op_matches(
                        program.instructions@[n],
                        #[trigger] ops@[n],
                    )
            },
            Err(e) => {
                ||| e@ matches ErrorView::DuplicateName(_)
                ||| e@ matches ErrorView::InvalidInstruction(_)
                ||| e@ matches ErrorView::UnknownArgument(_)
                ||| e@ matches ErrorView::ArgumentType(_)
            },
        },
        spec_program_valid(program) ==> r is Ok,
        r is Ok ==> spec_program_valid(program),
{
    // Constant groups: numeric expressions, no name declared twice.
    let ghost cs = program.constants@;
    let mut g: usize = 0;
    while g < program.constants.len()
        invariant
            0 <= g <= cs.len(),
            cs == program.constants@,
            forall|j: int| 0 <= j < g ==> spec_numeric(#[trigger] cs[j].1),
            forall|gp: int, ip: int|
                0 <= gp < g && 0 <= ip < cs[gp].0@.len() ==> {
                    &&& crate::context::spec_find_constant(
                        cs.take(gp),
                        (#[trigger] cs[gp].0@[ip])@,
                        0,
                    ) is None
                    &&& crate::context::spec_pos_in_group(cs[gp].0@, cs[gp].0@[ip]@, 0) == Some(
                        ip,
                    )
                },
        decreases cs.len() - g,
    {
        match &program.constants[g].1 {
            BeanieExpression::Math(_, _) => {},
            BeanieExpression::SimpleNumber(_) => {},
            BeanieExpression::Boolean(_) => {},
            _ => {
                return Err(BeanieError::InvalidInstruction("constant".to_owned()));
            },
        }
        let mut i: usize = 0;
        while i < program.constants[g].0.len()
            invariant
                0 <= g < cs.len(),
                cs == program.constants@,
                0 <= i <= cs[g as int].0@.len(),
                forall|ip: int|
                    0 <= ip < i ==> {
                        &&& crate::context::spec_find_constant(
                            cs.take(g as int),
                            (#[trigger] cs[g as int].0@[ip])@,
                            0,
                        ) is None
                        &&& crate::context::spec_pos_in_group(
                            cs[g as int].0@,
                            cs[g as int].0@[ip]@,
                            0,
                        ) == Some(ip)
                    },
            decreases cs[g as int].0@.len() - i,
        {
            let name_chars = str_to_chars(program.constants[g].0[i].as_str());
            let mut h: usize = 0;
            while h < g
                invariant
                    0 <= h <= g < cs.len(),
                    cs == program.constants@,
                    0 <= i < cs[g as int].0@.len(),
                    name_chars@ == cs[g as int].0@[i as int]@,
                    forall|hp: int|
                        0 <= hp < h ==> crate::context::spec_pos_in_group(
                            (#[trigger] cs[hp]).0@,
                            name_chars@,
                            0,
                        ) is None,
                decreases g - h,
            {
                if crate::context::pos_in_group(&program.constants[h].0, &name_chars).is_some() {
                    proof {
                        assert(cs.take(g as int)[h as int] == cs[h as int]);
                        crate::context::lemma_find_constant_some(
                            cs.take(g as int),
                            name_chars@,
                            0,
                            h as int,
                        );
                    }
                    return Err(BeanieError::DuplicateName(program.constants[g].0[i].clone()));
                }
                h = h + 1;
            }
            let mut j: usize = 0;
            while j < i
                invariant
                    0 <= g < cs.len(),
                    cs == program.constants@,
                    0 <= j <= i < cs[g as int].0@.len(),
                    name_chars@ == cs[g as int].0@[i as int]@,
                    forall|jp: int|
                        0 <= jp < j ==> (#[trigger] cs[g as int].0@[jp])@ != name_chars@,
                decreases i - j,
            {
                let other = str_to_chars(program.constants[g].0[j].as_str());
                if crate::text::chars_eq(&other, &name_chars) {
                    proof {
                        crate::context::lemma_pos_at_most(
                            cs[g as int].0@,
                            name_chars@,
                            0,
                            j as int,
                        );
                    }
                    return Err(BeanieError::DuplicateName(program.constants[g].0[i].clone()));
                }
                j = j + 1;
            }
            proof {
                assert forall|jj: int|
                    0 <= jj < cs.take(g as int).len() implies crate::context::spec_pos_in_group(
                    (#[trigger] cs.take(g as int)[jj]).0@,
                    name_chars@,
                    0,
                ) is None by {
                    assert(cs.take(g as int)[jj] == cs[jj]);
                }
                crate::context::lemma_find_constant_none_all(
                    cs.take(g as int),
                    name_chars@,
                    0,
                );
                crate::context::lemma_pos_exact(cs[g as int].0@, name_chars@, 0, i as int);
            }
            i = i + 1;
        }
        g = g + 1;
    }
    proof {
        assert(spec_constants_valid(cs));
    }
    // Functions: math bodies, names fresh among constants and functions.
    let ghost fs = program.functions@;
    let mut k: usize = 0;
    while k < program.functions.len()
        invariant
            0 <= k <= fs.len(),
            fs == program.functions@,
            cs == program.constants@,
            forall|j: int|
                0 <= j < k ==> {
                    &&& ((#[trigger] fs[j]).expression matches BeanieExpression::Math(_, _))
                    &&& crate::context::spec_find_constant(cs, fs[j].name@, 0) is None
                    &&& crate::context::spec_find_function(fs.take(j), fs[j].name@, 0) is None
                },
        decreases fs.len() - k,
    {
        match &program.functions[k].expression {
            BeanieExpression::Math(_, _) => {},
            _ => {
                return Err(BeanieError::InvalidInstruction("function".to_owned()));
            },
        }
        let name_chars = str_to_chars(program.functions[k].name.as_str());
        let mut h: usize = 0;
        while h < program.constants.len()
            invariant
                0 <= h <= cs.len(),
                cs == program.constants@,
                0 <= k < fs.len(),
                fs == program.functions@,
                name_chars@ == fs[k as int].name@,
                forall|hp: int|
                    0 <= hp < h ==> crate::context::spec_pos_in_group(
                        (#[trigger] cs[hp]).0@,
                        name_chars@,
                        0,
                    ) is None,
            decreases cs.len() - h,
        {
            if crate::context::pos_in_group(&program.constants[h].0, &name_chars).is_some() {
                proof {
                    crate::context::lemma_find_constant_some(cs, name_chars@, 0, h as int);
                }
                return Err(BeanieError::DuplicateName(program.functions[k].name.clone()));
            }
            h = h + 1;
        }
        let mut j: usize = 0;
        while j < k
            invariant
                0 <= j <= k < fs.len(),
                fs == program.functions@,
                name_chars@ == fs[k as int].name@,
                forall|jp: int| 0 <= jp < j ==> (#[trigger] fs[jp]).name@ != name_chars@,
            decreases k - j,
        {
            let other = str_to_chars(program.functions[j].name.as_str());
            if crate::text::chars_eq(&other, &name_chars) {
                proof {
                    assert(fs.take(k as int)[j as int] == fs[j as int]);
                    crate::laws::lemma_find_function_some(
                        fs.take(k as int),
                        name_chars@,
                        0,
                        j as int,
                    );
                }
                return Err(BeanieError::DuplicateName(program.functions[k].name.clone()));
            }
            j = j + 1;
        }
        proof {
            crate::context::lemma_find_constant_none_all(cs, name_chars@, 0);
            assert forall|jj: int|
                0 <= jj < fs.take(k as int).len() implies (#[trigger] fs.take(k as int)[
                jj
            ]).name@ != name_chars@ by {
                assert(fs.take(k as int)[jj] == fs[jj]);
            }
            crate::context::lemma_find_function_none_all(fs.take(k as int), name_chars@, 0);
        }
        k = k + 1;
    }
    proof {
        assert(spec_functions_valid(cs, fs));
    }
    // Instructions become operations; inputs and outputs are collected.
    let mut operations: Vec<Operation> = Vec::new();
    let mut inputs: Vec<String> = Vec::new();
    let mut outputs: Vec<BeanieExpression> = Vec::new();
    let mut n: usize = 0;
    while n < program.instructions.len()
        invariant
            0 <= n <= program.instructions@.len(),
            operations@.len() == n,
            forall|m: int|
                0 <= m < n ==> spec_op_matches(program.instructions@[m], #[trigger] operations@[m]),
            forall|m: int|
                0 <= m < n ==> spec_instruction_valid(#[trigger] program.instructions@[m]),
            spec_collect_inputs(program.instructions@, 0) == inputs@ + spec_collect_inputs(
                program.instructions@,
                n as int,
            ),
            spec_collect_outputs(program.instructions@, 0) == outputs@ + spec_collect_outputs(
                program.instructions@,
                n as int,
            ),
            forall|o: int|
                0 <= o < outputs@.len() ==> (#[trigger] outputs@[o]) matches
                    BeanieExpression::Math(_, _),
        decreases program.instructions@.len() - n,
    {
        let ins = &program.instructions[n];
        let ghost inputs0 = inputs@;
        let ghost outputs0 = outputs@;
        match ins.operation_type {
            OperationType::Use => {
                if ins.arguments.len() > 0 {
                    return Err(crate::operations::no_argument("Use"));
                }
                match &ins.expression {
                    BeanieExpression::FilePath(p) => {
                        operations.push(Operation::Use(UseOperation::new(p.clone())));
                    },
                    _ => {
                        return Err(BeanieError::InvalidInstruction("use".to_owned()));
                    },
                }
            },
            OperationType::In => {
                if ins.arguments.len() > 0 {
                    return Err(crate::operations::no_argument("In"));
                }
                match &ins.expression {
                    BeanieExpression::Math(t, _) => {
                        operations.push(Operation::In(InOperation::new(t.clone())));
                        inputs.push(t.clone());
                    },
                    _ => {
                        return Err(BeanieError::InvalidInstruction("in".to_owned()));
                    },
                }
            },
            OperationType::Print => {
                if ins.arguments.len() > 0 {
                    return Err(crate::operations::no_argument("Print"));
                }
                match &ins.expression {
                    BeanieExpression::Math(_, _) => {
                        operations.push(
                            Operation::Print(PrintOperation::new(ins.expression.duplicate())),
                        );
                    },
                    _ => {
                        return Err(BeanieError::InvalidInstruction("print".to_owned()));
                    },
                }
            },
            OperationType::Out => {
                match &ins.expression {
                    BeanieExpression::Math(_, _) => {},
                    _ => {
                        return Err(BeanieError::InvalidInstruction("out".to_owned()));
                    },
                }
                let mut op = OutOperation::new(ins.expression.duplicate());
                let mut a: usize = 0;
                while a < ins.arguments.len()
                    invariant
                        0 <= a <= ins.arguments@.len(),
                        0 <= n < program.instructions@.len(),
                        ins == &program.instructions@[n as int],
                        ins.operation_type == OperationType::Out,
                        op.expression == ins.expression,
                        spec_apply_args(
                            ins.arguments@,
                            spec_out_valid_arguments(),
                            0,
                            Seq::empty(),
                        ) == spec_apply_args(
                            ins.arguments@,
                            spec_out_valid_arguments(),
                            a as int,
                            op.arguments@,
                        ),
                    decreases ins.arguments@.len() - a,
                {
                    let ghost cur = op.arguments@;
                    match op.add_argument(
                        ins.arguments[a].0.clone(),
                        ins.arguments[a].1.duplicate(),
                    ) {
                        Ok(()) => {},
                        Err(e) => {
                            proof {
                                assert(spec_apply_args(
                                    ins.arguments@,
                                    spec_out_valid_arguments(),
                                    a as int,
                                    cur,
                                ) is Err);
                                if spec_program_valid(program) {
                                    assert(spec_instruction_valid(
                                        program.instructions@[n as int],
                                    ));
                                    assert(spec_apply_args(
                                        ins.arguments@,
                                        spec_out_valid_arguments(),
                                        0,
                                        Seq::empty(),
                                    ) is Ok);
                                    assert(false);
                                }
                            }
                            return Err(e);
                        },
                    }
                    a = a + 1;
                }
                outputs.push(ins.expression.duplicate());
                operations.push(Operation::Out(op));
            },
            OperationType::Graph => {
                let name = match &ins.expression {
                    BeanieExpression::Math(t, _) => t.clone(),
                    _ => {
                        return Err(BeanieError::InvalidInstruction("graph".to_owned()));
                    },
                };
                let mut op = GraphOperation::new(name);
                let ghost init = op.arguments@;
                proof {
                    assert(spec_graph_defaults(init));
                }
                let mut a: usize = 0;
                while a < ins.arguments.len()
                    invariant
                        0 <= a <= ins.arguments@.len(),
                        0 <= n < program.instructions@.len(),
                        ins == &program.instructions@[n as int],
                        ins.operation_type == OperationType::Graph,
                        ins.expression matches BeanieExpression::Math(t, _) && op.function_name
                            == t,
                        spec_graph_defaults(init),
                        spec_apply_args(ins.arguments@, spec_graph_valid_arguments(), 0, init)
                            == spec_apply_args(
                            ins.arguments@,
                            spec_graph_valid_arguments(),
                            a as int,
                            op.arguments@,
                        ),
                    decreases ins.arguments@.len() - a,
                {
                    let ghost cur = op.arguments@;
                    match op.add_argument(
                        ins.arguments[a].0.clone(),
                        ins.arguments[a].1.duplicate(),
                    ) {
                        Ok(()) => {},
                        Err(e) => {
                            proof {
                                assert(spec_apply_args(
                                    ins.arguments@,
                                    spec_graph_valid_arguments(),
                                    a as int,
                                    cur,
                                ) is Err);
                                if spec_program_valid(program) {
                                    assert(spec_instruction_valid(
                                        program.instructions@[n as int],
                                    ));
                                    assert(spec_graph_defaults(init));
                                    assert(spec_apply_args(
                                        ins.arguments@,
                                        spec_graph_valid_arguments(),
                                        0,
                                        init,
                                    ) is Ok);
                                    assert(false);
                                }
                            }
                            return Err(e);
                        },
                    }
                    a = a + 1;
                }
                proof {
                    assert(spec_apply_args(
                        ins.arguments@,
                        spec_graph_valid_arguments(),
                        ins.arguments@.len() as int,
                        op.arguments@,
                    ) == Ok::<Seq<(String, BeanieExpression)>, ErrorView>(op.arguments@));
                    assert forall|other: Seq<(String, BeanieExpression)>|
                        spec_graph_defaults(other) implies spec_apply_args(
                        ins.arguments@,
                        spec_graph_valid_arguments(),
                        0,
                        other,
                    ) is Ok by {
                        lemma_apply_args_okness(
                            ins.arguments@,
                            spec_graph_valid_arguments(),
                            0,
                            other,
                            init,
                        );
                    }
                }
                operations.push(Operation::Graph(op));
            },
        }
        n = n + 1;
    }
    proof {
        assert(spec_program_valid(program));
    }
    let context = BeanieRuntimeContext {
        beanie_file_path: program.beanie_file_path,
        constants: program.constants,
        functions: program.functions,
        inputs,
        outputs,
    };
    Ok((context, operations))
}

/// The run as a fold: from a context and accumulated effects, the operations
/// from position `k` on produce the outcome `r`.  Each step is some state
/// pair and result satisfying that operation's exact outcome; a failing step
/// ends the run with its error, and past the last operation the outcome is
/// the accumulated effects.
pub open spec fn spec_run_steps(
    ops: Seq<Operation>,
    k: int,
    ctx: BeanieRuntimeContext,
    effects: RunEffects,
    params: Seq<String>,
    imports: Seq<ImportSource>,
    config: RunConfig,
    r: Result<RunEffects, BeanieError>,
) -> bool
    decreases ops.len() - k when 0 <= k <= ops.len()
{
    if k >= ops.len() {
        r == Ok::<RunEffects, BeanieError>(effects)
    } else {
        exists|ctx1: BeanieRuntimeContext, eff1: RunEffects, r1: Result<(), BeanieError>|
            #![auto]
            ops[k].spec_post(ctx, ctx1, effects, eff1, params, imports, config, r1) && match r1 {
                Ok(()) => spec_run_steps(ops, k + 1, ctx1, eff1, params, imports, config, r),
                Err(e) => r == Err::<RunEffects, BeanieError>(e),
            }
    }
}

/// Executes the operations in order against the runtime context, collecting
/// the run's effects; the first fatal error aborts the run.  The result is
/// exactly a fold of the operations' outcomes from empty effects.
pub fn interpret(
    context: BeanieRuntimeContext,
    operations: Vec<Operation>,
    parameters: &Vec<String>,
    imports: &Vec<ImportSource>,
    config: RunConfig,
) -> (r: Result<RunEffects, BeanieError>)
    requires
        context.wf(),
        spec_imports_wf(imports@),
    ensures
        exists|e0: RunEffects|
            #![auto]
            crate::effects::spec_empty_effects(e0) && spec_run_steps(
                operations@,
                0,
                context,
                e0,
                parameters@,
                imports@,
                config,
                r,
            ),
        operations@.len() == 0 ==> r is Ok,
{
    let ghost ctx0 = context;
    let mut ctx = context;
    let mut effects = RunEffects::new();
    let ghost e0 = effects;
    proof {
        assert(ctx0 == context);
    }
    let mut n: usize = 0;
    while n < operations.len()
        invariant
            0 <= n <= operations@.len(),
            ctx.wf(),
            spec_imports_wf(imports@),
            ctx0 == context,
            crate::effects::spec_empty_effects(e0),
            forall|rr: Result<RunEffects, BeanieError>|
                spec_run_steps(
                    operations@,
                    n as int,
                    ctx,
                    effects,
                    parameters@,
                    imports@,
                    config,
                    rr,
                ) ==> #[trigger] spec_run_steps(
                    operations@,
                    0,
                    ctx0,
                    e0,
                    parameters@,
                    imports@,
                    config,
                    rr,
                ),
        decreases operations@.len() - n,
    {
        let ghost ctx_before = ctx;
        let ghost eff_before = effects;
        match operations[n].execute(&mut ctx, parameters, imports, &mut effects, config) {
            Ok(()) => {
                proof {
                    assert forall|rr: Result<RunEffects, BeanieError>|
                        spec_run_steps(
                            operations@,
                            n as int + 1,
                            ctx,
                            effects,
                            parameters@,
                            imports@,
                            config,
                            rr,
                        ) implies spec_run_steps(
                        operations@,
                        0,
                        ctx0,
                        e0,
                        parameters@,
                        imports@,
                        config,
                        rr,
                    ) by {
                        assert(operations@[n as int].spec_post(
                            ctx_before,
                            ctx,
                            eff_before,
                            effects,
                            parameters@,
                            imports@,
                            config,
                            Ok(()),
                        ));
                        assert(spec_run_steps(
                            operations@,
                            n as int,
                            ctx_before,
                            eff_before,
                            parameters@,
                            imports@,
                            config,
                            rr,
                        ));
                    }
                }
            },
            Err(e) => {
                proof {
                    assert(operations@[n as int].spec_post(
                        ctx_before,
                        ctx,
                        eff_before,
                        effects,
                        parameters@,
                        imports@,
                        config,
                        Err(e),
                    ));
                    assert(spec_run_steps(
                        operations@,
                        n as int,
                        ctx_before,
                        eff_before,
                        parameters@,
                        imports@,
                        config,
                        Err::<RunEffects, BeanieError>(e),
                    ));
                    assert(spec_run_steps(
                        operations@,
                        0,
                        ctx0,
                        e0,
                        parameters@,
                        imports@,
                        config,
                        Err::<RunEffects, BeanieError>(e),
                    ));
                }
                return Err(e);
            },
        }
        n = n + 1;
    }
    proof {
        assert(spec_run_steps(
            operations@,
            operations@.len() as int,
            ctx,
            effects,
            parameters@,
            imports@,
            config,
            Ok::<RunEffects, BeanieError>(effects),
        ));
        assert(spec_run_steps(
            operations@,
            0,
            ctx0,
            e0,
            parameters@,
            imports@,
            config,
            Ok::<RunEffects, BeanieError>(effects),
        ));
    }
    Ok(effects)
}

/// Runs a parsed program: contextualizes it, then executes its operations
/// against the supplied positional parameters and import sources under the
/// given default domain.  On success the collected effects are returned for
/// the caller to perform in order; each chart render runs as background work
/// joined before the process exits, and whether a write truncates is decided
/// at perform time through `OutputCleaner`.  The result is exactly:
/// contextualization of the program, then the fold of its operations'
/// outcomes.
pub fn run(
    program: BeanieContext,
    parameters: Vec<String>,
    imports: Vec<ImportSource>,
    default_data_type: DataType,
) -> (r: Result<RunEffects, BeanieError>)
    requires
        forall|k: int|
            0 <= k < program.functions@.len() ==> (#[trigger] program.functions@[
                k
            ].external_context) is None,
        spec_imports_wf(imports@),
    ensures
        spec_program_valid(program) ==> exists|
            ctx: BeanieRuntimeContext,
            ops: Seq<Operation>,
            e0: RunEffects,
        |
            #![auto]
            {
                &&& spec_contextualize_ctx(program, ctx)
                &&& ops.len() == program.instructions@.len()
                &&& (forall|n: int|
                    0 <= n < ops.len() ==> spec_op_matches(
                        program.instructions@[n],
                        #[trigger] ops[n],
                    ))
                &&& crate::effects::spec_empty_effects(e0)
                &&& spec_run_steps(
                    ops,
                    0,
                    ctx,
                    e0,
                    parameters@,
                    imports@,
                    RunConfig { default_data_type },
                    r,
                )
            },
        !spec_program_valid(program) ==> r is Err,
{
    match contextualize(program) {
        Ok((context, operations)) => interpret(
            context,
            operations,
            &parameters,
            &imports,
            RunConfig { default_data_type },
        ),
        Err(e) => Err(e),
    }
}

} // verus!
