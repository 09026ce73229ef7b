//! The executable operations of a program.
//!
//! Each operation validates its keyword arguments when it is built and
//! applies its effect to the runtime context or to the run's collected
//! effects when executed.  Execution is exact: every `execute` returns
//! precisely what its specification-level outcome says.

use vstd::prelude::*;
use crate::context::BeanieRuntimeContext;
use crate::data_type::DataType;
use crate::effects::{RunConfig, RunEffects, FileWrite, RenderJob};
use crate::engine::{
    spec_eval_to_string,
    spec_eval_answers,
    spec_resolve_at,
    DEFAULT_FUEL,
    eval_answers,
    resolve_math,
    join_answers,
};
use crate::errors::{BeanieError, ErrorView};
use crate::expression::{BeanieExpression, ExpressionType, spec_expression_type};
use crate::text::{
    str_to_chars,
    chars_to_string,
    chars_eq,
    push_chars,
    int_to_chars,
    spec_int_chars,
    spec_default_output_path,
    default_output_path,
};
use crate::backend::{decimal_round_eval, eval_decimal_round, spec_backend, backend_eval};

verus! {

/// The error for an operation that takes no arguments at all.
pub fn no_argument(instruction_name: &str) -> (r: BeanieError)
    ensures
        r@ == ErrorView::UnknownArgument(instruction_name@),
{
    BeanieError::UnknownArgument(instruction_name.to_owned())
}

/// The declared type of a recognized argument name, if any.
pub open spec fn spec_lookup_type(
    valid: Seq<(String, ExpressionType)>,
    name: Seq<char>,
    k: int,
) -> Option<ExpressionType>
    decreases valid.len() - k when 0 <= k <= valid.len()
{
    if k >= valid.len() {
        None
    } else if valid[k].0@ == name {
        Some(valid[k].1)
    } else {
        spec_lookup_type(valid, name, k + 1)
    }
}

/// The declared type of a recognized argument name, over a ghost keyword
/// table.
pub open spec fn spec_lookup_keyword(
    keys: Seq<(Seq<char>, ExpressionType)>,
    name: Seq<char>,
    k: int,
) -> Option<ExpressionType>
    decreases keys.len() - k when 0 <= k <= keys.len()
{
    if k >= keys.len() {
        None
    } else if keys[k].0 == name {
        Some(keys[k].1)
    } else {
        spec_lookup_keyword(keys, name, k + 1)
    }
}

proof fn lemma_lookup_bridge(
    valid: Seq<(String, ExpressionType)>,
    keys: Seq<(Seq<char>, ExpressionType)>,
    name: Seq<char>,
    k: int,
)
    requires
        valid.len() == keys.len(),
        forall|i: int|
            0 <= i < valid.len() ==> (#[trigger] valid[i].0)@ == keys[i].0 && valid[i].1 == keys[
                i
            ].1,
        0 <= k <= valid.len(),
    ensures
        spec_lookup_type(valid, name, k) == spec_lookup_keyword(keys, name, k),
    decreases valid.len() - k,
{
    if k < valid.len() && valid[k].0@ != name {
        lemma_lookup_bridge(valid, keys, name, k + 1);
    }
}

/// The position of an argument entry by name.
pub open spec fn spec_arg_index(
    args: Seq<(String, BeanieExpression)>,
    name: Seq<char>,
    k: int,
) -> Option<int>
    decreases args.len() - k when 0 <= k <= args.len()
{
    if k >= args.len() {
        None
    } else if args[k].0@ == name {
        Some(k)
    } else {
        spec_arg_index(args, name, k + 1)
    }
}

/// The first argument value recorded under a name.
pub open spec fn spec_find_argument(
    args: Seq<(String, BeanieExpression)>,
    name: Seq<char>,
) -> Option<BeanieExpression> {
    match spec_arg_index(args, name, 0) {
        Some(i) => Some(args[i].1),
        None => None,
    }
}

/// An argument list after recording a value under a name: the first entry of
/// that name is replaced, or a new entry is appended.
pub open spec fn spec_set_argument(
    args: Seq<(String, BeanieExpression)>,
    name: String,
    e: BeanieExpression,
) -> Seq<(String, BeanieExpression)> {
    match spec_arg_index(args, name@, 0) {
        Some(i) => args.update(i, (name, e)),
        None => args.push((name, e)),
    }
}

/// Finds the first argument value recorded under a name.
pub fn find_argument<'a>(args: &'a Vec<(String, BeanieExpression)>, name: &Vec<char>) -> (r:
    Option<&'a BeanieExpression>)
    ensures
        match r {
            Some(e) => {
                &&& spec_arg_index(args@, name@, 0) matches Some(i)
                &&& 0 <= i < args@.len()
                &&& *e == args@[i].1
                &&& spec_find_argument(args@, name@) == Some(*e)
            },
            None => spec_find_argument(args@, name@) is None,
        },
{
    let mut k: usize = 0;
    while k < args.len()
        invariant
            0 <= k <= args@.len(),
            spec_arg_index(args@, name@, 0) == spec_arg_index(args@, name@, k as int),
        decreases args@.len() - k,
    {
        let entry = str_to_chars(args[k].0.as_str());
        if chars_eq(&entry, name) {
            return Some(&args[k].1);
        }
        k = k + 1;
    }
    None
}

/// Checks one keyword argument against an operation's accepted names and
/// types, and records it: an unrecognized name and a type mismatch are both
/// fatal.
#[allow(unused_variables)]
pub fn verify_argument(
    instruction_name: &str,
    name: String,
    expression: BeanieExpression,
    valid_arguments: &Vec<(String, ExpressionType)>,
    arguments: &mut Vec<(String, BeanieExpression)>,
) -> (r: Result<(), BeanieError>)
    ensures
        match r {
            Ok(()) => {
                &&& spec_lookup_type(valid_arguments@, name@, 0) == Some(
                    spec_expression_type(expression),
                )
                &&& final(arguments)@ == spec_set_argument(old(arguments)@, name, expression)
            },
            Err(e) => {
                &&& final(arguments)@ == old(arguments)@
                &&& match spec_lookup_type(valid_arguments@, name@, 0) {
                    None => e@ == ErrorView::UnknownArgument(name@),
                    Some(t) => t != spec_expression_type(expression) && e@
                        == ErrorView::ArgumentType(name@),
                }
            },
        },
{
    let name_chars = str_to_chars(name.as_str());
    let mut k: usize = 0;
    let mut found: Option<ExpressionType> = None;
    while k < valid_arguments.len() && found.is_none()
        invariant
            0 <= k <= valid_arguments@.len(),
            name_chars@ == name@,
            match found {
                Some(t) => spec_lookup_type(valid_arguments@, name@, 0) == Some(t),
                None => spec_lookup_type(valid_arguments@, name@, 0) == spec_lookup_type(
                    valid_arguments@,
                    name@,
                    k as int,
                ),
            },
        decreases valid_arguments@.len() - k,
    {
        let entry = str_to_chars(valid_arguments[k].0.as_str());
        if chars_eq(&entry, &name_chars) {
            found = Some(valid_arguments[k].1);
        }
        k = k + 1;
    }
    match found {
        None => Err(BeanieError::UnknownArgument(name)),
        Some(expected) => {
            let got = expression.get_type();
            if expected == got {
                let mut i: usize = 0;
                while i < arguments.len()
                    invariant
                        0 <= i <= arguments@.len(),
                        arguments@ == old(arguments)@,
                        name_chars@ == name@,
                        spec_lookup_type(valid_arguments@, name@, 0) == Some(
                            spec_expression_type(expression),
                        ),
                        spec_arg_index(arguments@, name@, 0) == spec_arg_index(
                            arguments@,
                            name@,
                            i as int,
                        ),
                    decreases arguments@.len() - i,
                {
                    let entry = str_to_chars(arguments[i].0.as_str());
                    if chars_eq(&entry, &name_chars) {
                        arguments.remove(i);
                        arguments.insert(i, (name, expression));
                        proof {
                            assert(arguments@ =~= old(arguments)@.update(
                                i as int,
                                (name, expression),
                            ));
                        }
                        return Ok(());
                    }
                    i = i + 1;
                }
                arguments.push((name, expression));
                Ok(())
            } else {
                Err(BeanieError::ArgumentType(name))
            }
        },
    }
}

/// Binds one external positional parameter to a declared input name.
#[derive(Debug)]
pub struct InOperation {
    pub input_name: String,
}

impl InOperation {
    /// An `In` operation for a declared input name.
    pub fn new(input_name: String) -> (r: InOperation)
        ensures
            r.input_name == input_name,
    {
        InOperation { input_name }
    }

    /// Exactly what executing this operation does: the input name's position
    /// among the declared inputs selects the external parameter, which is
    /// bound as a single-name constant group under the default domain; an
    /// undeclared name or a missing parameter is fatal and changes nothing.
    pub open spec fn spec_post(
        self,
        old_c: BeanieRuntimeContext,
        new_c: BeanieRuntimeContext,
        params: Seq<String>,
        config: RunConfig,
        r: Result<(), BeanieError>,
    ) -> bool {
        match crate::context::spec_pos_in_group(old_c.inputs@, self.input_name@, 0) {
            None => {
                &&& r matches Err(e) && e@ == ErrorView::InputNotDeclared(self.input_name@)
                &&& new_c == old_c
            },
            Some(p) => {
                if p >= params.len() {
                    &&& r matches Err(e) && e@ == ErrorView::MissingParameter(self.input_name@)
                    &&& new_c == old_c
                } else {
                    match r {
                        Ok(()) => {
                            &&& old_c.spec_bind_ok(self.input_name@)
                            &&& old_c.spec_bind_result(
                                self.input_name,
                                BeanieExpression::Math(params[p], config.default_data_type),
                                new_c,
                            )
                        },
                        Err(e) => {
                            &&& !old_c.spec_bind_ok(self.input_name@)
                            &&& e@ == ErrorView::DuplicateName(self.input_name@)
                            &&& new_c == old_c
                        },
                    }
                }
            },
        }
    }

    /// Looks the input name up among the declared inputs, takes the external
    /// parameter at that position, and binds it as a single-name constant
    /// group under the default domain.  Fatal when the name is not a declared
    /// input or no parameter sits at its position.
    pub fn execute(
        &self,
        context: &mut BeanieRuntimeContext,
        parameters: &Vec<String>,
        config: RunConfig,
    ) -> (r: Result<(), BeanieError>)
        requires
            old(context).wf(),
        ensures
            final(context).wf(),
            self.spec_post(*old(context), *final(context), parameters@, config, r),
    {
        let name_chars = str_to_chars(self.input_name.as_str());
        let position = crate::context::pos_in_group(&context.inputs, &name_chars);
        match position {
            None => Err(BeanieError::InputNotDeclared(self.input_name.clone())),
            Some(p) => {
                if p >= parameters.len() {
                    Err(BeanieError::MissingParameter(self.input_name.clone()))
                } else {
                    let value = BeanieExpression::Math(
                        parameters[p].clone(),
                        config.default_data_type,
                    );
                    context.bind_constant(self.input_name.clone(), value)
                }
            },
        }
    }

    /// `In` takes no arguments.
    pub fn add_argument(&mut self, _name: String, _expression: BeanieExpression) -> (r: Result<
        (),
        BeanieError,
    >)
        ensures
            r matches Err(e) && e@ == ErrorView::UnknownArgument("In"@),
            *final(self) == *old(self),
    {
        Err(no_argument("In"))
    }
}

/// Prints an expression's display text.
#[derive(Debug)]
pub struct PrintOperation {
    pub expression: BeanieExpression,
}

impl PrintOperation {
    /// A `Print` operation for an expression.
    pub fn new(expression: BeanieExpression) -> (r: PrintOperation)
        ensures
            r.expression == expression,
    {
        PrintOperation { expression }
    }

    /// Exactly what executing this operation does: on success the display
    /// text of the expression is appended to the prints, on failure nothing
    /// changes and the error is the evaluation's.
    pub open spec fn spec_post(
        self,
        ctx: BeanieRuntimeContext,
        old_e: RunEffects,
        new_e: RunEffects,
        r: Result<(), BeanieError>,
    ) -> bool {
        &&& new_e.writes == old_e.writes
        &&& new_e.renders == old_e.renders
        &&& match r {
            Ok(()) => {
                &&& spec_eval_to_string(self.expression, ctx, DEFAULT_FUEL as nat) matches Ok(s)
                &&& new_e.prints@.len() == old_e.prints@.len() + 1
                &&& new_e.prints@.subrange(0, old_e.prints@.len() as int) == old_e.prints@
                &&& new_e.prints@.last()@ == s
            },
            Err(e) => {
                &&& spec_eval_to_string(self.expression, ctx, DEFAULT_FUEL as nat) == Err::<
                    Seq<char>,
                    ErrorView,
                >(e@)
                &&& new_e.prints == old_e.prints
            },
        }
    }

    /// Evaluates the expression to text and records it for printing.
    pub fn execute(&self, context: &BeanieRuntimeContext, effects: &mut RunEffects) -> (r: Result<
        (),
        BeanieError,
    >)
        requires
            context.wf(),
        ensures
            self.spec_post(*context, *old(effects), *final(effects), r),
    {
        match self.expression.evaluate_to_string(context) {
            Ok(text) => {
                effects.prints.push(text);
                proof {
                    assert(final(effects).prints@.subrange(
                        0,
                        old(effects).prints@.len() as int,
                    ) =~= old(effects).prints@);
                }
                Ok(())
            },
            Err(e) => Err(e),
        }
    }

    /// `Print` takes no arguments.
    pub fn add_argument(&mut self, _name: String, _expression: BeanieExpression) -> (r: Result<
        (),
        BeanieError,
    >)
        ensures
            r matches Err(e) && e@ == ErrorView::UnknownArgument("Print"@),
            *final(self) == *old(self),
    {
        Err(no_argument("Print"))
    }
}

/// What an `Out` operation decides: nothing to do, or a line to append to a
/// file.
pub open spec fn spec_out_outcome(
    expression: BeanieExpression,
    args: Seq<(String, BeanieExpression)>,
    ctx: BeanieRuntimeContext,
) -> Result<Option<(Seq<char>, Seq<char>)>, ErrorView> {
    match spec_find_argument(args, "output-to-file"@) {
        None => Ok(None),
        Some(flag) => match flag {
            BeanieExpression::Boolean(b) => if !b {
                Ok(None)
            } else {
                match spec_eval_to_string(expression, ctx, DEFAULT_FUEL as nat) {
                    Err(er) => Err(er),
                    Ok(text) => match spec_find_argument(args, "output-file"@) {
                        Some(target) => match target {
                            BeanieExpression::FilePath(p) => Ok(Some((p@, text + seq!['\n']))),
                            _ => Err(ErrorView::ArgumentType("output-file"@)),
                        },
                        None => Ok(
                            Some(
                                (
                                    spec_default_output_path(ctx.beanie_file_path@),
                                    text + seq!['\n'],
                                ),
                            ),
                        ),
                    },
                }
            },
            _ => Err(ErrorView::ArgumentType("output-to-file"@)),
        },
    }
}

/// Evaluates an expression to text and appends it to an output file when
/// asked to.
#[derive(Debug)]
pub struct OutOperation {
    pub expression: BeanieExpression,
    pub arguments: Vec<(String, BeanieExpression)>,
}

impl OutOperation {
    /// An `Out` operation with no arguments yet.
    pub fn new(expression: BeanieExpression) -> (r: OutOperation)
        ensures
            r.expression == expression,
            r.arguments@ =~= Seq::<(String, BeanieExpression)>::empty(),
    {
        OutOperation { expression, arguments: Vec::new() }
    }

    /// Exactly what executing this operation does: nothing unless
    /// `output-to-file` is a true boolean; otherwise one write is appended,
    /// carrying the decided target path and the evaluated line; failures
    /// change nothing.
    pub open spec fn spec_post(
        self,
        ctx: BeanieRuntimeContext,
        old_e: RunEffects,
        new_e: RunEffects,
        r: Result<(), BeanieError>,
    ) -> bool {
        &&& new_e.prints == old_e.prints
        &&& new_e.renders == old_e.renders
        &&& match r {
            Ok(()) => match spec_out_outcome(self.expression, self.arguments@, ctx) {
                Ok(None) => new_e == old_e,
                Ok(Some((path, text))) => {
                    &&& new_e.writes@.len() == old_e.writes@.len() + 1
                    &&& new_e.writes@.subrange(0, old_e.writes@.len() as int) == old_e.writes@
                    &&& new_e.writes@.last().path@ == path
                    &&& new_e.writes@.last().text@ == text
                },
                Err(_) => false,
            },
            Err(e) => {
                &&& spec_out_outcome(self.expression, self.arguments@, ctx) == Err::<
                    Option<(Seq<char>, Seq<char>)>,
                    ErrorView,
                >(e@)
                &&& new_e == old_e
            },
        }
    }

    /// Writes the expression's text to the target file when `output-to-file`
    /// is true; whether the write truncates is decided when it is performed,
    /// through `OutputCleaner`.  Without a target argument the file sits
    /// beside the source, named by its stem plus `_out.txt`.
    pub fn execute(&self, context: &BeanieRuntimeContext, effects: &mut RunEffects) -> (r: Result<
        (),
        BeanieError,
    >)
        requires
            context.wf(),
        ensures
            self.spec_post(*context, *old(effects), *final(effects), r),
    {
        let key = str_to_chars("output-to-file");
        proof {
            reveal_strlit("output-to-file");
        }
        let flag = match find_argument(&self.arguments, &key) {
            None => {
                return Ok(());
            },
            Some(e) => e,
        };
        let b = match flag {
            BeanieExpression::Boolean(b) => *b,
            _ => {
                return Err(BeanieError::ArgumentType("output-to-file".to_owned()));
            },
        };
        if !b {
            return Ok(());
        }
        let text = match self.expression.evaluate_to_string(context) {
            Ok(t) => t,
            Err(e) => {
                return Err(e);
            },
        };
        let file_key = str_to_chars("output-file");
        proof {
            reveal_strlit("output-file");
        }
        let path: String = match find_argument(&self.arguments, &file_key) {
            Some(target) => match target {
                BeanieExpression::FilePath(p) => p.clone(),
                _ => {
                    return Err(BeanieError::ArgumentType("output-file".to_owned()));
                },
            },
            None => {
                let source = str_to_chars(context.beanie_file_path.as_str());
                chars_to_string(&default_output_path(&source))
            },
        };
        let mut line = str_to_chars(text.as_str());
        line.push('\n');
        proof {
            assert(line@ =~= text@ + seq!['\n']);
        }
        effects.writes.push(FileWrite { path, text: chars_to_string(&line) });
        proof {
            assert(final(effects).writes@.subrange(0, old(effects).writes@.len() as int) =~= old(
                effects,
            ).writes@);
        }
        Ok(())
    }

    /// Records one keyword argument: `output-to-file` must be a boolean and
    /// `output-file` a file path.
    pub fn add_argument(&mut self, name: String, expression: BeanieExpression) -> (r: Result<
        (),
        BeanieError,
    >)
        ensures
            final(self).expression == old(self).expression,
            match r {
                Ok(()) => {
                    &&& spec_lookup_keyword(spec_out_valid_arguments(), name@, 0) == Some(
                        spec_expression_type(expression),
                    )
                    &&& final(self).arguments@ == spec_set_argument(
                        old(self).arguments@,
                        name,
                        expression,
                    )
                },
                Err(e) => {
                    &&& final(self).arguments@ == old(self).arguments@
                    &&& match spec_lookup_keyword(spec_out_valid_arguments(), name@, 0) {
                        None => e@ == ErrorView::UnknownArgument(name@),
                        Some(t) => t != spec_expression_type(expression) && e@
                            == ErrorView::ArgumentType(name@),
                    }
                },
            },
    {
        let valid = out_valid_arguments();
        proof {
            lemma_lookup_bridge(valid@, spec_out_valid_arguments(), name@, 0);
        }
        verify_argument("Out", name, expression, &valid, &mut self.arguments)
    }
}

/// The accepted arguments of `Out`: `output-to-file` as a boolean and
/// `output-file` as a file path.
pub open spec fn spec_out_valid_arguments() -> Seq<(Seq<char>, ExpressionType)> {
    seq![
        ("output-to-file"@, ExpressionType::Boolean),
        ("output-file"@, ExpressionType::FilePath),
    ]
}

fn out_valid_arguments() -> (r: Vec<(String, ExpressionType)>)
    ensures
        r@.len() == spec_out_valid_arguments().len(),
        forall|i: int|
            0 <= i < r@.len() ==> (#[trigger] r@[i].0)@ == spec_out_valid_arguments()[i].0 && r@[
                i
            ].1 == spec_out_valid_arguments()[i].1,
{
    let mut v: Vec<(String, ExpressionType)> = Vec::new();
    proof {
        reveal_strlit("output-to-file");
        reveal_strlit("output-file");
    }
    v.push(("output-to-file".to_owned(), ExpressionType::Boolean));
    v.push(("output-file".to_owned(), ExpressionType::FilePath));
    v
}

/// The accepted arguments of `Graph`: six math bounds and steps, and three
/// text labels.
pub open spec fn spec_graph_valid_arguments() -> Seq<(Seq<char>, ExpressionType)> {
    seq![
        ("min_x"@, ExpressionType::MathExpression),
        ("min_y"@, ExpressionType::MathExpression),
        ("max_x"@, ExpressionType::MathExpression),
        ("max_y"@, ExpressionType::MathExpression),
        ("step_x"@, ExpressionType::MathExpression),
        ("step_y"@, ExpressionType::MathExpression),
        ("title"@, ExpressionType::StringLiteral),
        ("label_x"@, ExpressionType::StringLiteral),
        ("label_y"@, ExpressionType::StringLiteral),
    ]
}

fn graph_valid_arguments() -> (r: Vec<(String, ExpressionType)>)
    ensures
        r@.len() == spec_graph_valid_arguments().len(),
        forall|i: int|
            0 <= i < r@.len() ==> (#[trigger] r@[i].0)@ == spec_graph_valid_arguments()[i].0
                && r@[i].1 == spec_graph_valid_arguments()[i].1,
{
    let mut v: Vec<(String, ExpressionType)> = Vec::new();
    proof {
        reveal_strlit("min_x");
        reveal_strlit("min_y");
        reveal_strlit("max_x");
        reveal_strlit("max_y");
        reveal_strlit("step_x");
        reveal_strlit("step_y");
        reveal_strlit("title");
        reveal_strlit("label_x");
        reveal_strlit("label_y");
    }
    v.push(("min_x".to_owned(), ExpressionType::MathExpression));
    v.push(("min_y".to_owned(), ExpressionType::MathExpression));
    v.push(("max_x".to_owned(), ExpressionType::MathExpression));
    v.push(("max_y".to_owned(), ExpressionType::MathExpression));
    v.push(("step_x".to_owned(), ExpressionType::MathExpression));
    v.push(("step_y".to_owned(), ExpressionType::MathExpression));
    v.push(("title".to_owned(), ExpressionType::StringLiteral));
    v.push(("label_x".to_owned(), ExpressionType::StringLiteral));
    v.push(("label_y".to_owned(), ExpressionType::StringLiteral));
    v
}

/// The decided shape of one chart, at the specification level.
pub struct GraphPlan {
    pub min_x: int,
    pub min_y: int,
    pub max_x: int,
    pub max_y: int,
    pub step_x: Seq<char>,
    pub step_y: Seq<char>,
    pub title: Option<Seq<char>>,
    pub label_x: Option<Seq<char>>,
    pub label_y: Option<Seq<char>>,
    pub samples: Seq<Seq<char>>,
}

/// An integer chart bound: a ready number, or a math expression resolved and
/// evaluated under the decimal domain, rounded to the nearest integer.
pub open spec fn spec_graph_int(
    args: Seq<(String, BeanieExpression)>,
    key: Seq<char>,
    ctx: BeanieRuntimeContext,
) -> Result<int, ErrorView> {
    match spec_find_argument(args, key) {
        None => Err(ErrorView::UnknownArgument(key)),
        Some(e) => match e {
            BeanieExpression::SimpleNumber(n) => Ok(n as int),
            BeanieExpression::Math(t, _) => match spec_resolve_at(
                t@,
                0,
                ctx,
                Seq::empty(),
                DataType::Decimal,
                DEFAULT_FUEL as nat,
            ) {
                Err(er) => Err(er),
                Ok(res) => match decimal_round_eval(res) {
                    Some(v) => Ok(v as int),
                    None => Err(ErrorView::MathFailure(res)),
                },
            },
            _ => Err(ErrorView::ArgumentType(key)),
        },
    }
}

fn graph_int(
    args: &Vec<(String, BeanieExpression)>,
    key: &str,
    ctx: &BeanieRuntimeContext,
) -> (r: Result<i64, BeanieError>)
    requires
        ctx.wf(),
    ensures
        match r {
            Ok(v) => spec_graph_int(args@, key@, *ctx) == Ok::<int, ErrorView>(v as int),
            Err(e) => spec_graph_int(args@, key@, *ctx) == Err::<int, ErrorView>(e@),
        },
{
    let key_chars = str_to_chars(key);
    match find_argument(args, &key_chars) {
        None => Err(BeanieError::UnknownArgument(key.to_owned())),
        Some(e) => match e {
            BeanieExpression::SimpleNumber(n) => Ok(*n),
            BeanieExpression::Math(t, _) => {
                let chars = str_to_chars(t.as_str());
                let bound: Vec<String> = Vec::new();
                proof {
                    assert(bound@ =~= Seq::<String>::empty());
                }
                match resolve_math(&chars, ctx, &bound, DataType::Decimal, DEFAULT_FUEL) {
                    Err(er) => Err(er),
                    Ok(resolved) => {
                        let closed = chars_to_string(&resolved);
                        match eval_decimal_round(closed.as_str()) {
                            Some(v) => Ok(v),
                            None => Err(BeanieError::MathFailure(closed)),
                        }
                    },
                }
            },
            _ => Err(BeanieError::ArgumentType(key.to_owned())),
        },
    }
}

/// A tick step: a ready number's text, or the single decimal answer of a
/// math expression.
pub open spec fn spec_graph_value(
    args: Seq<(String, BeanieExpression)>,
    key: Seq<char>,
    ctx: BeanieRuntimeContext,
) -> Result<Seq<char>, ErrorView> {
    match spec_find_argument(args, key) {
        None => Err(ErrorView::UnknownArgument(key)),
        Some(e) => match e {
            BeanieExpression::SimpleNumber(n) => Ok(spec_int_chars(n as int)),
            BeanieExpression::Math(_, _) => match spec_eval_answers(
                e,
                ctx,
                DataType::Decimal,
                DEFAULT_FUEL as nat,
            ) {
                Err(er) => Err(er),
                Ok(vs) => if vs.len() == 1 {
                    Ok(vs[0])
                } else {
                    Err(ErrorView::AnswerOutOfRange(key))
                },
            },
            _ => Err(ErrorView::ArgumentType(key)),
        },
    }
}

fn graph_value(
    args: &Vec<(String, BeanieExpression)>,
    key: &str,
    ctx: &BeanieRuntimeContext,
) -> (r: Result<String, BeanieError>)
    requires
        ctx.wf(),
    ensures
        match r {
            Ok(v) => spec_graph_value(args@, key@, *ctx) == Ok::<Seq<char>, ErrorView>(v@),
            Err(e) => spec_graph_value(args@, key@, *ctx) == Err::<Seq<char>, ErrorView>(e@),
        },
{
    let key_chars = str_to_chars(key);
    match find_argument(args, &key_chars) {
        None => Err(BeanieError::UnknownArgument(key.to_owned())),
        Some(e) => match e {
            BeanieExpression::SimpleNumber(n) => {
                let digits = int_to_chars(*n);
                Ok(chars_to_string(&digits))
            },
            BeanieExpression::Math(_, _) => {
                match eval_answers(e, ctx, DataType::Decimal, DEFAULT_FUEL) {
                    Err(er) => Err(er),
                    Ok(vs) => {
                        if vs.len() == 1 {
                            proof {
                                assert(vs.deep_view()[0] == vs@[0]@);
                            }
                            Ok(vs[0].clone())
                        } else {
                            Err(BeanieError::AnswerOutOfRange(key.to_owned()))
                        }
                    },
                }
            },
            _ => Err(BeanieError::ArgumentType(key.to_owned())),
        },
    }
}

/// An optional chart label: absent, or the display text of its expression.
pub open spec fn spec_graph_label(
    args: Seq<(String, BeanieExpression)>,
    key: Seq<char>,
    ctx: BeanieRuntimeContext,
) -> Result<Option<Seq<char>>, ErrorView> {
    match spec_find_argument(args, key) {
        None => Ok(None),
        Some(e) => match spec_eval_to_string(e, ctx, DEFAULT_FUEL as nat) {
            Ok(s) => Ok(Some(s)),
            Err(er) => Err(er),
        },
    }
}

fn graph_label(
    args: &Vec<(String, BeanieExpression)>,
    key: &str,
    ctx: &BeanieRuntimeContext,
) -> (r: Result<Option<String>, BeanieError>)
    requires
        ctx.wf(),
    ensures
        match r {
            Ok(o) => match o {
                Some(s) => spec_graph_label(args@, key@, *ctx) == Ok::<
                    Option<Seq<char>>,
                    ErrorView,
                >(Some(s@)),
                None => spec_graph_label(args@, key@, *ctx) == Ok::<
                    Option<Seq<char>>,
                    ErrorView,
                >(None),
            },
            Err(e) => spec_graph_label(args@, key@, *ctx) == Err::<Option<Seq<char>>, ErrorView>(
                e@,
            ),
        },
{
    let key_chars = str_to_chars(key);
    match find_argument(args, &key_chars) {
        None => Ok(None),
        Some(e) => match e.evaluate_to_string(ctx) {
            Ok(s) => Ok(Some(s)),
            Err(er) => Err(er),
        },
    }
}

/// One sampled value: the named function applied to an integer point, under
/// the decimal domain, required to yield a single answer.
pub open spec fn spec_sample(fname: Seq<char>, ctx: BeanieRuntimeContext, x: int) -> Result<
    Seq<char>,
    ErrorView,
> {
    let call = fname + seq!['('] + spec_int_chars(x) + seq![')'];
    match spec_resolve_at(call, 0, ctx, Seq::empty(), DataType::Decimal, DEFAULT_FUEL as nat) {
        Err(er) => Err(er),
        Ok(res) => match spec_backend(DataType::Decimal, res) {
            Some(vs) => if vs.len() == 1 {
                Ok(vs[0])
            } else {
                Err(ErrorView::AnswerOutOfRange(fname))
            },
            None => Err(ErrorView::MathFailure(res)),
        },
    }
}

/// The sampled values over `[from, to)`, in order.
pub open spec fn spec_samples(
    fname: Seq<char>,
    ctx: BeanieRuntimeContext,
    from: int,
    to: int,
) -> Result<Seq<Seq<char>>, ErrorView>
    decreases (if to - from > 0 { to - from } else { 0 })
{
    if from >= to {
        Ok(Seq::empty())
    } else {
        match spec_sample(fname, ctx, from) {
            Err(er) => Err(er),
            Ok(v) => match spec_samples(fname, ctx, from + 1, to) {
                Err(er) => Err(er),
                Ok(rest) => Ok(seq![v] + rest),
            },
        }
    }
}

fn sample(fname: &Vec<char>, ctx: &BeanieRuntimeContext, x: i64) -> (r: Result<
    String,
    BeanieError,
>)
    requires
        ctx.wf(),
    ensures
        match r {
            Ok(v) => spec_sample(fname@, *ctx, x as int) == Ok::<Seq<char>, ErrorView>(v@),
            Err(e) => spec_sample(fname@, *ctx, x as int) == Err::<Seq<char>, ErrorView>(e@),
        },
{
    let mut call: Vec<char> = Vec::new();
    push_chars(&mut call, fname);
    call.push('(');
    let digits = int_to_chars(x);
    push_chars(&mut call, &digits);
    call.push(')');
    proof {
        assert(call@ =~= fname@ + seq!['('] + spec_int_chars(x as int) + seq![')']);
    }
    let bound: Vec<String> = Vec::new();
    proof {
        assert(bound@ =~= Seq::<String>::empty());
    }
    match resolve_math(&call, ctx, &bound, DataType::Decimal, DEFAULT_FUEL) {
        Err(er) => Err(er),
        Ok(resolved) => match backend_eval(DataType::Decimal, &resolved) {
            Some(vs) => {
                if vs.len() == 1 {
                    proof {
                        assert(vs.deep_view()[0] == vs@[0]@);
                    }
                    Ok(vs[0].clone())
                } else {
                    Err(BeanieError::AnswerOutOfRange(chars_to_string(fname)))
                }
            },
            None => Err(BeanieError::MathFailure(chars_to_string(&resolved))),
        },
    }
}

/// Samples a one-argument function at integer points and renders the chart
/// in the background.
#[derive(Debug)]
pub struct GraphOperation {
    pub function_name: String,
    pub arguments: Vec<(String, BeanieExpression)>,
}

impl GraphOperation {
    /// A `Graph` operation with the default bounds and steps: x and y from
    /// -10 to 100 with tick distance 10, no title, no labels.
    pub fn new(function_name: String) -> (r: GraphOperation)
        ensures
            r.function_name == function_name,
            r.arguments@.len() == 6,
            r.arguments@[0].0@ == "min_x"@ && r.arguments@[0].1 == BeanieExpression::SimpleNumber(-10i64),
            r.arguments@[1].0@ == "min_y"@ && r.arguments@[1].1 == BeanieExpression::SimpleNumber(-10i64),
            r.arguments@[2].0@ == "max_x"@ && r.arguments@[2].1 == BeanieExpression::SimpleNumber(100i64),
            r.arguments@[3].0@ == "max_y"@ && r.arguments@[3].1 == BeanieExpression::SimpleNumber(100i64),
            r.arguments@[4].0@ == "step_x"@ && r.arguments@[4].1 == BeanieExpression::SimpleNumber(10i64),
            r.arguments@[5].0@ == "step_y"@ && r.arguments@[5].1 == BeanieExpression::SimpleNumber(10i64),
    {
        let mut arguments: Vec<(String, BeanieExpression)> = Vec::new();
        arguments.push(("min_x".to_owned(), BeanieExpression::SimpleNumber(-10)));
        arguments.push(("min_y".to_owned(), BeanieExpression::SimpleNumber(-10)));
        arguments.push(("max_x".to_owned(), BeanieExpression::SimpleNumber(100)));
        arguments.push(("max_y".to_owned(), BeanieExpression::SimpleNumber(100)));
        arguments.push(("step_x".to_owned(), BeanieExpression::SimpleNumber(10)));
        arguments.push(("step_y".to_owned(), BeanieExpression::SimpleNumber(10)));
        GraphOperation { function_name, arguments }
    }

    /// The decided chart: where each bound, step, label and sample comes
    /// from, in the order the operation evaluates them.
    pub open spec fn spec_plan(self, ctx: BeanieRuntimeContext) -> Result<GraphPlan, ErrorView> {
        if ctx.spec_function(self.function_name@) is None {
            Err(ErrorView::UnknownFunction(self.function_name@))
        } else {
            match spec_graph_int(self.arguments@, "min_x"@, ctx) {
                Err(er) => Err(er),
                Ok(min_x) => match spec_graph_int(self.arguments@, "min_y"@, ctx) {
                    Err(er) => Err(er),
                    Ok(min_y) => match spec_graph_int(self.arguments@, "max_x"@, ctx) {
                        Err(er) => Err(er),
                        Ok(max_x) => match spec_graph_int(self.arguments@, "max_y"@, ctx) {
                            Err(er) => Err(er),
                            Ok(max_y) => match spec_graph_value(self.arguments@, "step_x"@, ctx) {
                                Err(er) => Err(er),
                                Ok(step_x) => match spec_graph_value(
                                    self.arguments@,
                                    "step_y"@,
                                    ctx,
                                ) {
                                    Err(er) => Err(er),
                                    Ok(step_y) => match spec_graph_label(
                                        self.arguments@,
                                        "title"@,
                                        ctx,
                                    ) {
                                        Err(er) => Err(er),
                                        Ok(title) => match spec_graph_label(
                                            self.arguments@,
                                            "label_x"@,
                                            ctx,
                                        ) {
                                            Err(er) => Err(er),
                                            Ok(label_x) => match spec_graph_label(
                                                self.arguments@,
                                                "label_y"@,
                                                ctx,
                                            ) {
                                                Err(er) => Err(er),
                                                Ok(label_y) => match spec_samples(
                                                    self.function_name@,
                                                    ctx,
                                                    min_x,
                                                    max_x,
                                                ) {
                                                    Err(er) => Err(er),
                                                    Ok(samples) => Ok(
                                                        GraphPlan {
                                                            min_x,
                                                            min_y,
                                                            max_x,
                                                            max_y,
                                                            step_x,
                                                            step_y,
                                                            title,
                                                            label_x,
                                                            label_y,
                                                            samples,
                                                        },
                                                    ),
                                                },
                                            },
                                        },
                                    },
                                },
                            },
                        },
                    },
                },
            }
        }
    }

    /// Samples the named function across `[min_x, max_x)` and records one
    /// render job; rendering itself runs in the background and is joined
    /// after the last operation.
    /// Exactly what executing this operation does: on success one render job
    /// is appended, matching the decided plan field for field and sample for
    /// sample; on failure nothing changes and the error is the plan's.
    pub open spec fn spec_post(
        self,
        ctx: BeanieRuntimeContext,
        old_e: RunEffects,
        new_e: RunEffects,
        r: Result<(), BeanieError>,
    ) -> bool {
        &&& new_e.prints == old_e.prints
        &&& new_e.writes == old_e.writes
        &&& match r {
            Ok(()) => {
                &&& self.spec_plan(ctx) matches Ok(plan)
                &&& new_e.renders@.len() == old_e.renders@.len() + 1
                &&& new_e.renders@.subrange(0, old_e.renders@.len() as int) == old_e.renders@
                &&& {
                    let job = new_e.renders@.last();
                    let plan = self.spec_plan(ctx)->Ok_0;
                    &&& job.function_name == self.function_name
                    &&& job.min_x as int == plan.min_x
                    &&& job.min_y as int == plan.min_y
                    &&& job.max_x as int == plan.max_x
                    &&& job.max_y as int == plan.max_y
                    &&& job.step_x@ == plan.step_x
                    &&& job.step_y@ == plan.step_y
                    &&& match plan.title {
                        Some(t) => job.title matches Some(s) && s@ == t,
                        None => job.title is None,
                    }
                    &&& match plan.label_x {
                        Some(t) => job.label_x matches Some(s) && s@ == t,
                        None => job.label_x is None,
                    }
                    &&& match plan.label_y {
                        Some(t) => job.label_y matches Some(s) && s@ == t,
                        None => job.label_y is None,
                    }
                    &&& job.coordinates@.len() == plan.samples.len()
                    &&& forall|k: int|
                        0 <= k < plan.samples.len() ==> (#[trigger] job.coordinates@[k]).0
                            as int == plan.min_x + k && job.coordinates@[k].1@
                            == plan.samples[k]
                }
            },
            Err(e) => {
                &&& self.spec_plan(ctx) == Err::<GraphPlan, ErrorView>(e@)
                &&& new_e.renders == old_e.renders
            },
        }
    }

    pub fn execute(&self, context: &BeanieRuntimeContext, effects: &mut RunEffects) -> (r: Result<
        (),
        BeanieError,
    >)
        requires
            context.wf(),
        ensures
            self.spec_post(*context, *old(effects), *final(effects), r),
    {
        let name_chars = str_to_chars(self.function_name.as_str());
        if !context.has_function(&name_chars) {
            return Err(BeanieError::UnknownFunction(self.function_name.clone()));
        }
        let min_x = match graph_int(&self.arguments, "min_x", context) {
            Ok(v) => v,
            Err(e) => {
                return Err(e);
            },
        };
        let min_y = match graph_int(&self.arguments, "min_y", context) {
            Ok(v) => v,
            Err(e) => {
                return Err(e);
            },
        };
        let max_x = match graph_int(&self.arguments, "max_x", context) {
            Ok(v) => v,
            Err(e) => {
                return Err(e);
            },
        };
        let max_y = match graph_int(&self.arguments, "max_y", context) {
            Ok(v) => v,
            Err(e) => {
                return Err(e);
            },
        };
        let step_x = match graph_value(&self.arguments, "step_x", context) {
            Ok(v) => v,
            Err(e) => {
                return Err(e);
            },
        };
        let step_y = match graph_value(&self.arguments, "step_y", context) {
            Ok(v) => v,
            Err(e) => {
                return Err(e);
            },
        };
        let title = match graph_label(&self.arguments, "title", context) {
            Ok(v) => v,
            Err(e) => {
                return Err(e);
            },
        };
        let label_x = match graph_label(&self.arguments, "label_x", context) {
            Ok(v) => v,
            Err(e) => {
                return Err(e);
            },
        };
        let label_y = match graph_label(&self.arguments, "label_y", context) {
            Ok(v) => v,
            Err(e) => {
                return Err(e);
            },
        };
        let mut coordinates: Vec<(i64, String)> = Vec::new();
        let ghost mut vals: Seq<Seq<char>> = Seq::empty();
        let mut x = min_x;
        if min_x < max_x {
            while x < max_x
                invariant
                    min_x <= x <= max_x,
                    context.wf(),
                    name_chars@ == self.function_name@,
                    coordinates@.len() == vals.len(),
                    x as int == min_x + vals.len(),
                    forall|k: int|
                        0 <= k < vals.len() ==> (#[trigger] coordinates@[k]).0 as int == min_x + k
                            && coordinates@[k].1@ == vals[k],
                    spec_samples(self.function_name@, *context, min_x as int, max_x as int)
                        == match spec_samples(self.function_name@, *context, x as int, max_x as int) {
                        Ok(rest) => Ok::<Seq<Seq<char>>, ErrorView>(vals + rest),
                        Err(er) => Err::<Seq<Seq<char>>, ErrorView>(er),
                    },
                    match spec_samples(self.function_name@, *context, min_x as int, max_x as int) {
                        Ok(s) => self.spec_plan(*context) == Ok::<GraphPlan, ErrorView>(
                            GraphPlan {
                                min_x: min_x as int,
                                min_y: min_y as int,
                                max_x: max_x as int,
                                max_y: max_y as int,
                                step_x: step_x@,
                                step_y: step_y@,
                                title: match title {
                                    Some(t) => Some(t@),
                                    None => None,
                                },
                                label_x: match label_x {
                                    Some(t) => Some(t@),
                                    None => None,
                                },
                                label_y: match label_y {
                                    Some(t) => Some(t@),
                                    None => None,
                                },
                                samples: s,
                            },
                        ),
                        Err(er) => self.spec_plan(*context) == Err::<GraphPlan, ErrorView>(er),
                    },
                decreases max_x - x,
            {
                let value = match sample(&name_chars, context, x) {
                    Ok(v) => v,
                    Err(e) => {
                        return Err(e);
                    },
                };
                let ghost v0 = value@;
                coordinates.push((x, value));
                proof {
                    let rest0 = spec_samples(
                        self.function_name@,
                        *context,
                        x as int + 1,
                        max_x as int,
                    );
                    match rest0 {
                        Ok(rs) => {
                            assert(vals + (seq![v0] + rs) =~= vals.push(v0) + rs);
                        },
                        Err(_) => {},
                    }
                    vals = vals.push(v0);
                }
                x = x + 1;
            }
        }
        proof {
            assert(spec_samples(self.function_name@, *context, x as int, max_x as int) == Ok::<
                Seq<Seq<char>>,
                ErrorView,
            >(Seq::empty()));
            assert(vals + Seq::<Seq<char>>::empty() =~= vals);
            if min_x >= max_x {
                assert(spec_samples(self.function_name@, *context, min_x as int, max_x as int)
                    == Ok::<Seq<Seq<char>>, ErrorView>(Seq::empty()));
                assert(vals =~= Seq::<Seq<char>>::empty());
            }
        }
        effects.renders.push(
            RenderJob {
                function_name: self.function_name.clone(),
                title,
                label_x,
                label_y,
                min_x,
                min_y,
                max_x,
                max_y,
                step_x,
                step_y,
                coordinates,
            },
        );
        proof {
            assert(final(effects).renders@.subrange(0, old(effects).renders@.len() as int) =~= old(
                effects,
            ).renders@);
        }
        Ok(())
    }

    /// Records one keyword argument after checking it against the accepted
    /// names and types.
    pub fn add_argument(&mut self, name: String, expression: BeanieExpression) -> (r: Result<
        (),
        BeanieError,
    >)
        ensures
            final(self).function_name == old(self).function_name,
            match r {
                Ok(()) => {
                    &&& spec_lookup_keyword(spec_graph_valid_arguments(), name@, 0) == Some(
                        spec_expression_type(expression),
                    )
                    &&& final(self).arguments@ == spec_set_argument(
                        old(self).arguments@,
                        name,
                        expression,
                    )
                },
                Err(e) => {
                    &&& final(self).arguments@ == old(self).arguments@
                    &&& match spec_lookup_keyword(spec_graph_valid_arguments(), name@, 0) {
                        None => e@ == ErrorView::UnknownArgument(name@),
                        Some(t) => t != spec_expression_type(expression) && e@
                            == ErrorView::ArgumentType(name@),
                    }
                },
            },
    {
        let valid = graph_valid_arguments();
        proof {
            lemma_lookup_bridge(valid@, spec_graph_valid_arguments(), name@, 0);
        }
        verify_argument("Graph", name, expression, &valid, &mut self.arguments)
    }
}

/// Registers an imported program as one callable function.
#[derive(Debug)]
pub struct UseOperation {
    pub file_path: String,
}

impl UseOperation {
    /// A `Use` operation for a source file path.
    pub fn new(file_path: String) -> (r: UseOperation)
        ensures
            r.file_path == file_path,
    {
        UseOperation { file_path }
    }

    /// Exactly what executing this operation does.  With the stem's name
    /// already taken it is a no-op.  Otherwise the outcome is decided by the
    /// import source supplied for the path: absent, the run fails with
    /// `MissingImport`; present, the source's program rewritten with the
    /// source's suffix either fails validation, declares zero or several
    /// outputs (each case fatal, context unchanged), or is registered as one
    /// function whose foreign context is exactly that rewritten program
    /// contextualized — so the foreign names the contracts speak of are the
    /// suffixed ones, end to end.
    pub open spec fn spec_post(
        self,
        old_c: BeanieRuntimeContext,
        new_c: BeanieRuntimeContext,
        imports: Seq<crate::beanie_context::ImportSource>,
        r: Result<(), BeanieError>,
    ) -> bool {
        let stem = crate::text::spec_file_stem(self.file_path@);
        &&& new_c.beanie_file_path == old_c.beanie_file_path
        &&& new_c.constants == old_c.constants
        &&& new_c.inputs == old_c.inputs
        &&& new_c.outputs == old_c.outputs
        &&& match old_c.spec_function(stem) {
            Some(_) => r matches Ok(()) && new_c == old_c,
            None => match crate::beanie_context::spec_find_import(imports, self.file_path@, 0) {
                None => {
                    &&& r matches Err(e) && e@ == ErrorView::MissingImport(self.file_path@)
                    &&& new_c == old_c
                },
                Some(idx) => exists|sp: crate::beanie_context::BeanieContext|
                    #![auto]
                    imports[idx].program.spec_suffixed_program(imports[idx].suffix@, sp) && {
                        if !crate::beanie_interpreter::spec_program_valid(sp) {
                            &&& new_c == old_c
                            &&& r matches Err(e) && {
                                ||| e@ matches ErrorView::DuplicateName(_)
                                ||| e@ matches ErrorView::InvalidInstruction(_)
                                ||| e@ matches ErrorView::UnknownArgument(_)
                                ||| e@ matches ErrorView::ArgumentType(_)
                            }
                        } else {
                            let n_outs = crate::beanie_interpreter::spec_collect_outputs(
                                sp.instructions@,
                                0,
                            ).len();
                            if n_outs == 0 {
                                &&& new_c == old_c
                                &&& r matches Err(e) && e@ == ErrorView::NoOutput(
                                    self.file_path@,
                                )
                            } else if n_outs > 1 {
                                &&& new_c == old_c
                                &&& r matches Err(e) && e@ == ErrorView::MultipleOutputs(
                                    self.file_path@,
                                )
                            } else {
                                &&& r matches Ok(())
                                &&& new_c.functions@.len() == old_c.functions@.len() + 1
                                &&& new_c.functions@.subrange(
                                    0,
                                    old_c.functions@.len() as int,
                                ) == old_c.functions@
                                &&& {
                                    let f = new_c.functions@.last();
                                    &&& f.name@ == stem
                                    &&& f.external_context matches Some(c) && {
                                        &&& crate::beanie_interpreter::spec_contextualize_ctx(
                                            sp,
                                            *c,
                                        )
                                        &&& (*c).outputs@.len() == 1
                                        &&& f.expression == (*c).outputs@[0]
                                        &&& f.parameters@ == (*c).inputs@
                                    }
                                }
                            }
                        }
                    },
            },
        }
    }

    /// Registers the imported program, suffixed for hygiene, as a function
    /// named by the file's stem: its parameters are the program's declared
    /// inputs, its body the program's one output, its foreign context the
    /// program's whole contextualized state.  Registering a name that
    /// already exists is a no-op, so importing the same path twice registers
    /// exactly one function.
    pub fn execute(
        &self,
        context: &mut BeanieRuntimeContext,
        imports: &Vec<crate::beanie_context::ImportSource>,
    ) -> (r: Result<(), BeanieError>)
        requires
            old(context).wf(),
            crate::beanie_context::spec_imports_wf(imports@),
        ensures
            final(context).wf(),
            self.spec_post(*old(context), *final(context), imports@, r),
    {
        let path_chars = str_to_chars(self.file_path.as_str());
        let stem = crate::text::file_stem(&path_chars);
        if context.has_function(&stem) {
            return Ok(());
        }
        let src = match crate::beanie_context::find_import(imports, &self.file_path) {
            Some(s) => s,
            None => {
                return Err(BeanieError::MissingImport(self.file_path.clone()));
            },
        };
        let suffix_chars = str_to_chars(src.suffix.as_str());
        let ghost src_index = crate::beanie_context::spec_find_import(
            imports@,
            self.file_path@,
            0,
        )->Some_0;
        proof {
            assert(forall|k: int|
                0 <= k < imports@[src_index].program.functions@.len() ==> (#[trigger] imports@[
                    src_index
                ].program.functions@[k].external_context) is None);
        }
        let suffixed = src.program.apply_suffix(&suffix_chars);
        let ghost sp = suffixed;
        proof {
            assert(imports@[src_index].program.spec_suffixed_program(
                imports@[src_index].suffix@,
                sp,
            ));
        }
        let (ictx, _ops) = match crate::beanie_interpreter::contextualize(suffixed) {
            Ok(pair) => pair,
            Err(e) => {
                proof {
                    assert(!crate::beanie_interpreter::spec_program_valid(sp));
                }
                return Err(e);
            },
        };
        if ictx.outputs.len() == 0 {
            return Err(BeanieError::NoOutput(self.file_path.clone()));
        }
        if ictx.outputs.len() > 1 {
            return Err(BeanieError::MultipleOutputs(self.file_path.clone()));
        }
        let parameters = crate::text::clone_strings(&ictx.inputs);
        let expression = ictx.outputs[0].duplicate();
        let name = chars_to_string(&stem);
        context.functions.push(
            crate::function::Function {
                name,
                parameters,
                expression,
                external_context: Some(Box::new(ictx)),
            },
        );
        proof {
            assert(final(context).functions@.subrange(0, old(context).functions@.len() as int)
                =~= old(context).functions@);
            assert forall|k: int| 0 <= k < final(context).functions@.len() implies ((#[trigger]
            final(context).functions@[k].expression) matches BeanieExpression::Math(_, _)
                && match final(context).functions@[k].external_context {
                Some(c) => (*c).wf_inner(),
                None => true,
            }) by {
                if k < old(context).functions@.len() {
                    assert(final(context).functions@[k] == old(context).functions@[k]);
                }
            }
        }
        Ok(())
    }

    /// `Use` takes no arguments.
    pub fn add_argument(&mut self, _name: String, _expression: BeanieExpression) -> (r: Result<
        (),
        BeanieError,
    >)
        ensures
            r matches Err(e) && e@ == ErrorView::UnknownArgument("Use"@),
            *final(self) == *old(self),
    {
        Err(no_argument("Use"))
    }
}

/// One executable operation of a program: the closed set of the five
/// operation kinds.
#[derive(Debug)]
pub enum Operation {
    Use(UseOperation),
    In(InOperation),
    Out(OutOperation),
    Print(PrintOperation),
    Graph(GraphOperation),
}

impl Operation {
    /// Exactly what executing one operation does, by its kind: an operation
    /// that reads the context leaves it unchanged, an operation that reads no
    /// effects leaves them unchanged, and the rest is the kind's own outcome.
    pub open spec fn spec_post(
        self,
        old_c: BeanieRuntimeContext,
        new_c: BeanieRuntimeContext,
        old_e: RunEffects,
        new_e: RunEffects,
        params: Seq<String>,
        imports: Seq<crate::beanie_context::ImportSource>,
        config: RunConfig,
        r: Result<(), BeanieError>,
    ) -> bool {
        match self {
            Operation::Use(op) => op.spec_post(old_c, new_c, imports, r) && new_e == old_e,
            Operation::In(op) => op.spec_post(old_c, new_c, params, config, r) && new_e == old_e,
            Operation::Out(op) => op.spec_post(old_c, old_e, new_e, r) && new_c == old_c,
            Operation::Print(op) => op.spec_post(old_c, old_e, new_e, r) && new_c == old_c,
            Operation::Graph(op) => op.spec_post(old_c, old_e, new_e, r) && new_c == old_c,
        }
    }

    /// Applies this operation's effect to the runtime context and the run's
    /// collected effects, exactly as its kind's outcome says; the context
    /// stays well formed whatever happens.
    pub fn execute(
        &self,
        context: &mut BeanieRuntimeContext,
        parameters: &Vec<String>,
        imports: &Vec<crate::beanie_context::ImportSource>,
        effects: &mut RunEffects,
        config: RunConfig,
    ) -> (r: Result<(), BeanieError>)
        requires
            old(context).wf(),
            crate::beanie_context::spec_imports_wf(imports@),
        ensures
            final(context).wf(),
            self.spec_post(
                *old(context),
                *final(context),
                *old(effects),
                *final(effects),
                parameters@,
                imports@,
                config,
                r,
            ),
    {
        match self {
            Operation::Use(op) => op.execute(context, imports),
            Operation::In(op) => op.execute(context, parameters, config),
            Operation::Out(op) => op.execute(context, effects),
            Operation::Print(op) => op.execute(context, effects),
            Operation::Graph(op) => op.execute(context, effects),
        }
    }
}

} // verus!
