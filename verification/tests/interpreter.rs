use beanie::beanie_context::{BeanieContext, ImportSource};
use beanie::beanie_interpreter::{contextualize, run};
use beanie::context::BeanieRuntimeContext;
use beanie::data_type::DataType;
use beanie::effects::{OutputCleaner, RunConfig};
use beanie::errors::BeanieError;
use beanie::expression::BeanieExpression;
use beanie::function::Function;
use beanie::instruction::{Instruction, OperationType};
use beanie::operations::{InOperation, OutOperation, UseOperation};

fn math(text: &str) -> BeanieExpression {
    BeanieExpression::Math(text.to_string(), DataType::Decimal)
}

fn empty_program(path: &str) -> BeanieContext {
    BeanieContext {
        beanie_file_path: path.to_string(),
        constants: Vec::new(),
        functions: Vec::new(),
        instructions: Vec::new(),
    }
}

fn import(path: &str, suffix: &str, program: BeanieContext) -> ImportSource {
    ImportSource { file_path: path.to_string(), suffix: suffix.to_string(), program }
}

#[test]
fn evaluates_plain_arithmetic() {
    let ctx = BeanieRuntimeContext::new("t.bn".to_string());
    let text = math("2 + 3").evaluate_to_string(&ctx).unwrap();
    assert_eq!(text, "5");
}

#[test]
fn resolves_constants_transitively() {
    let mut ctx = BeanieRuntimeContext::new("t.bn".to_string());
    ctx.constants.push((vec!["a".to_string()], math("2")));
    ctx.constants.push((vec!["b".to_string()], math("a + 1")));
    let text = math("b * 2").evaluate_to_string(&ctx).unwrap();
    assert_eq!(text, "6");
}

#[test]
fn domain_consistency_two_runs_agree() {
    let mut ctx = BeanieRuntimeContext::new("t.bn".to_string());
    ctx.constants.push((vec!["a".to_string()], math("7")));
    let e = math("a * a - 1");
    let first = e.evaluate_to_string(&ctx).unwrap();
    let second = e.evaluate_to_string(&ctx).unwrap();
    assert_eq!(first, second);
    assert_eq!(first, "48");
}

#[test]
fn positional_disambiguation_picks_each_root() {
    let mut ctx = BeanieRuntimeContext::new("t.bn".to_string());
    ctx.constants.push((vec!["x".to_string(), "y".to_string()], math("sqrt(4)")));
    assert_eq!(math("x").evaluate_to_string(&ctx).unwrap(), "2");
    assert_eq!(math("y").evaluate_to_string(&ctx).unwrap(), "-2");
}

#[test]
fn multiple_answers_display_in_braces() {
    let ctx = BeanieRuntimeContext::new("t.bn".to_string());
    assert_eq!(math("sqrt(4)").evaluate_to_string(&ctx).unwrap(), "{2, -2}");
}

#[test]
fn irrational_expressions_echo_their_text() {
    let ctx = BeanieRuntimeContext::new("t.bn".to_string());
    let e = BeanieExpression::Math("z + 1".to_string(), DataType::Irrational);
    assert_eq!(e.evaluate_to_string(&ctx).unwrap(), "z + 1");
}

#[test]
fn string_literals_lose_their_quotes() {
    let ctx = BeanieRuntimeContext::new("t.bn".to_string());
    let e = BeanieExpression::StringLiteral("'hello'".to_string());
    assert_eq!(e.evaluate_to_string(&ctx).unwrap(), "hello");
}

#[test]
fn booleans_and_numbers_display() {
    let ctx = BeanieRuntimeContext::new("t.bn".to_string());
    assert_eq!(BeanieExpression::Boolean(true).evaluate_to_string(&ctx).unwrap(), "true");
    assert_eq!(BeanieExpression::SimpleNumber(-5).evaluate_to_string(&ctx).unwrap(), "-5");
    assert_eq!(
        BeanieExpression::SimpleNumber(i64::MIN).evaluate_to_string(&ctx).unwrap(),
        "-9223372036854775808"
    );
}

#[test]
fn functions_inline_with_parameters() {
    let mut ctx = BeanieRuntimeContext::new("t.bn".to_string());
    ctx.functions.push(Function::new(
        "double".to_string(),
        vec!["q".to_string()],
        math("q + q"),
    ));
    assert_eq!(math("double(4) + 1").evaluate_to_string(&ctx).unwrap(), "9");
}

#[test]
fn wrong_argument_count_is_fatal() {
    let mut ctx = BeanieRuntimeContext::new("t.bn".to_string());
    ctx.functions.push(Function::new("f".to_string(), vec!["q".to_string()], math("q")));
    let err = math("f(1, 2)").evaluate_to_string(&ctx).unwrap_err();
    assert!(matches!(err, BeanieError::WrongArgumentCount(_)));
}

#[test]
fn unknown_identifier_is_fatal() {
    let ctx = BeanieRuntimeContext::new("t.bn".to_string());
    let err = math("z").evaluate_to_string(&ctx).unwrap_err();
    match err {
        BeanieError::UnknownIdentifier(name) => assert_eq!(name, "z"),
        other => panic!("wrong error: {}", other.message()),
    }
}

#[test]
fn position_past_answers_is_fatal() {
    let mut ctx = BeanieRuntimeContext::new("t.bn".to_string());
    ctx.constants.push((
        vec!["x".to_string(), "y".to_string(), "w".to_string()],
        math("sqrt(4)"),
    ));
    let err = math("w").evaluate_to_string(&ctx).unwrap_err();
    assert!(matches!(err, BeanieError::AnswerOutOfRange(_)));
}

#[test]
fn cyclic_constants_hit_the_recursion_limit() {
    let mut ctx = BeanieRuntimeContext::new("t.bn".to_string());
    ctx.constants.push((vec!["a".to_string()], math("a + 1")));
    let err = math("a").evaluate_to_string(&ctx).unwrap_err();
    assert!(matches!(err, BeanieError::RecursionLimit));
}

#[test]
fn division_by_zero_is_a_math_failure() {
    let ctx = BeanieRuntimeContext::new("t.bn".to_string());
    let err = math("1 / 0").evaluate_to_string(&ctx).unwrap_err();
    assert!(matches!(err, BeanieError::MathFailure(_)));
}

#[test]
fn rational_domain_has_no_backend() {
    let ctx = BeanieRuntimeContext::new("t.bn".to_string());
    let e = BeanieExpression::Math("1".to_string(), DataType::Rational);
    let err = e.evaluate_to_string(&ctx).unwrap_err();
    assert!(matches!(err, BeanieError::MathFailure(_)));
}

#[test]
fn error_messages_carry_their_subject() {
    let err = BeanieError::UnknownIdentifier("z".to_string());
    assert_eq!(err.message(), "unknown identifier: z");
}

#[test]
fn data_type_keywords_round_trip() {
    assert_eq!(DataType::from_keyword("decimal"), Some(DataType::Decimal));
    assert_eq!(DataType::from_keyword("idecimal"), Some(DataType::ImaginaryDecimal));
    assert_eq!(DataType::from_keyword("frac"), Some(DataType::Rational));
    assert_eq!(DataType::from_keyword("ifrac"), Some(DataType::ComplexRational));
    assert_eq!(DataType::from_keyword("irrational"), Some(DataType::Irrational));
    assert_eq!(DataType::from_keyword("other"), None);
    assert_eq!(DataType::Rational.keyword(), "frac");
}

#[test]
fn input_binding_follows_declared_positions() {
    let mut ctx = BeanieRuntimeContext::new("t.bn".to_string());
    ctx.inputs.push("a".to_string());
    ctx.inputs.push("b".to_string());
    let parameters = vec!["3".to_string(), "4".to_string()];
    let config = RunConfig { default_data_type: DataType::Decimal };
    // `In b` runs before `In a`; the bindings still follow declared positions.
    InOperation::new("b".to_string()).execute(&mut ctx, &parameters, config).unwrap();
    InOperation::new("a".to_string()).execute(&mut ctx, &parameters, config).unwrap();
    assert_eq!(math("a").evaluate_to_string(&ctx).unwrap(), "3");
    assert_eq!(math("b").evaluate_to_string(&ctx).unwrap(), "4");
}

#[test]
fn missing_parameter_is_fatal() {
    let mut ctx = BeanieRuntimeContext::new("t.bn".to_string());
    ctx.inputs.push("a".to_string());
    ctx.inputs.push("b".to_string());
    let parameters = vec!["3".to_string()];
    let config = RunConfig { default_data_type: DataType::Decimal };
    let err = InOperation::new("b".to_string()).execute(&mut ctx, &parameters, config)
        .unwrap_err();
    assert!(matches!(err, BeanieError::MissingParameter(_)));
}

#[test]
fn undeclared_input_is_fatal() {
    let mut ctx = BeanieRuntimeContext::new("t.bn".to_string());
    let parameters = vec!["3".to_string()];
    let config = RunConfig { default_data_type: DataType::Decimal };
    let err = InOperation::new("z".to_string()).execute(&mut ctx, &parameters, config)
        .unwrap_err();
    assert!(matches!(err, BeanieError::InputNotDeclared(_)));
}

fn one_output_import(value: &str) -> BeanieContext {
    let mut program = empty_program("lib/a.bn");
    program.constants.push((vec!["r".to_string()], math(value)));
    program.instructions.push(Instruction::new(OperationType::Out, math("r")));
    program
}

#[test]
fn use_registers_the_import_once() {
    let mut ctx = BeanieRuntimeContext::new("main.bn".to_string());
    let imports = vec![import("lib/a.bn", "qqq", one_output_import("1"))];
    let op = UseOperation::new("lib/a.bn".to_string());
    op.execute(&mut ctx, &imports).unwrap();
    assert_eq!(ctx.functions.len(), 1);
    assert_eq!(ctx.functions[0].name, "a");
    // Idempotent: a second Use of the same path registers nothing new.
    op.execute(&mut ctx, &imports).unwrap();
    assert_eq!(ctx.functions.len(), 1);
}

#[test]
fn imports_with_shared_names_do_not_interfere() {
    let mut program = empty_program("main.bn");
    program.instructions.push(Instruction::new(
        OperationType::Use,
        BeanieExpression::FilePath("lib/a.bn".to_string()),
    ));
    program.instructions.push(Instruction::new(
        OperationType::Use,
        BeanieExpression::FilePath("lib/b.bn".to_string()),
    ));
    program.instructions.push(Instruction::new(OperationType::Print, math("a() + b()")));
    let mut b_program = empty_program("lib/b.bn");
    b_program.constants.push((vec!["r".to_string()], math("2")));
    b_program.instructions.push(Instruction::new(OperationType::Out, math("r")));
    let imports = vec![
        import("lib/a.bn", "aaa", one_output_import("1")),
        import("lib/b.bn", "bbb", b_program),
    ];
    let effects = run(program, Vec::new(), imports, DataType::Decimal).unwrap();
    assert_eq!(effects.prints, vec!["3".to_string()]);
}

#[test]
fn import_without_output_is_fatal() {
    let mut ctx = BeanieRuntimeContext::new("main.bn".to_string());
    let mut program = empty_program("lib/a.bn");
    program.constants.push((vec!["r".to_string()], math("1")));
    let imports = vec![import("lib/a.bn", "qqq", program)];
    let err = UseOperation::new("lib/a.bn".to_string()).execute(&mut ctx, &imports)
        .unwrap_err();
    assert!(matches!(err, BeanieError::NoOutput(_)));
}

#[test]
fn import_with_two_outputs_is_fatal() {
    let mut ctx = BeanieRuntimeContext::new("main.bn".to_string());
    let mut program = one_output_import("1");
    program.instructions.push(Instruction::new(OperationType::Out, math("r")));
    let imports = vec![import("lib/a.bn", "qqq", program)];
    let err = UseOperation::new("lib/a.bn".to_string()).execute(&mut ctx, &imports)
        .unwrap_err();
    assert!(matches!(err, BeanieError::MultipleOutputs(_)));
}

#[test]
fn missing_import_source_is_fatal() {
    let mut ctx = BeanieRuntimeContext::new("main.bn".to_string());
    let err = UseOperation::new("lib/a.bn".to_string()).execute(&mut ctx, &Vec::new())
        .unwrap_err();
    assert!(matches!(err, BeanieError::MissingImport(_)));
}

#[test]
fn first_write_against_an_existing_file_truncates() {
    let mut program = empty_program("dir/prog.bn");
    let mut first = Instruction::new(OperationType::Out, math("1"));
    first.add_argument("output-to-file".to_string(), BeanieExpression::Boolean(true));
    let mut second = Instruction::new(OperationType::Out, math("2"));
    second.add_argument("output-to-file".to_string(), BeanieExpression::Boolean(true));
    program.instructions.push(first);
    program.instructions.push(second);
    let effects = run(program, Vec::new(), Vec::new(), DataType::Decimal).unwrap();
    assert_eq!(effects.writes.len(), 2);
    assert_eq!(effects.writes[0].path, "dir/prog_out.txt");
    assert_eq!(effects.writes[0].text, "1\n");
    assert_eq!(effects.writes[1].text, "2\n");
    // Both writes hit a pre-existing target: exactly the first truncates.
    let mut cleaner = OutputCleaner::new();
    assert!(cleaner.decide(true));
    assert!(!cleaner.decide(true));
}

#[test]
fn truncation_stays_armed_past_created_files() {
    // The run's first write creates a missing file: no truncation happens and
    // the flag stays armed, so a later write against an existing file still
    // truncates it.
    let mut cleaner = OutputCleaner::new();
    assert!(!cleaner.decide(false));
    assert!(cleaner.decide(true));
    assert!(!cleaner.decide(true));
}

#[test]
fn a_fresh_run_truncates_again() {
    for _ in 0..2 {
        let mut program = empty_program("prog.bn");
        let mut out = Instruction::new(OperationType::Out, math("1"));
        out.add_argument("output-to-file".to_string(), BeanieExpression::Boolean(true));
        program.instructions.push(out);
        let effects = run(program, Vec::new(), Vec::new(), DataType::Decimal).unwrap();
        assert_eq!(effects.writes.len(), 1);
        assert_eq!(effects.writes[0].path, "prog_out.txt");
        // Each run performs its writes under a fresh flag.
        let mut cleaner = OutputCleaner::new();
        assert!(cleaner.decide(true));
    }
}

#[test]
fn out_without_the_flag_writes_nothing() {
    let mut program = empty_program("prog.bn");
    program.instructions.push(Instruction::new(OperationType::Out, math("1")));
    let effects = run(program, Vec::new(), Vec::new(), DataType::Decimal).unwrap();
    assert_eq!(effects.writes.len(), 0);
}

#[test]
fn out_argument_validation_is_fatal() {
    let mut op = OutOperation::new(math("1"));
    let err = op.add_argument("bogus".to_string(), BeanieExpression::Boolean(true))
        .unwrap_err();
    assert!(matches!(err, BeanieError::UnknownArgument(_)));
    let err = op.add_argument(
        "output-to-file".to_string(),
        BeanieExpression::FilePath("x".to_string()),
    ).unwrap_err();
    assert!(matches!(err, BeanieError::ArgumentType(_)));
}

#[test]
fn duplicate_constant_names_are_fatal() {
    let mut program = empty_program("prog.bn");
    program.constants.push((vec!["x".to_string()], math("1")));
    program.constants.push((vec!["x".to_string()], math("2")));
    let err = contextualize(program).unwrap_err();
    assert!(matches!(err, BeanieError::DuplicateName(_)));
}

#[test]
fn use_needs_a_file_path_expression() {
    let mut program = empty_program("prog.bn");
    program.instructions.push(Instruction::new(OperationType::Use, math("1")));
    let err = contextualize(program).unwrap_err();
    assert!(matches!(err, BeanieError::InvalidInstruction(_)));
}

#[test]
fn graph_samples_the_function_and_prints_do_not_wait() {
    let mut program = empty_program("prog.bn");
    program.functions.push(Function::new(
        "f".to_string(),
        vec!["q".to_string()],
        math("q * q"),
    ));
    let mut graph = Instruction::new(OperationType::Graph, math("f"));
    graph.add_argument("min_x".to_string(), math("0"));
    graph.add_argument("max_x".to_string(), math("3"));
    graph.add_argument("title".to_string(), BeanieExpression::StringLiteral(
        "'squares'".to_string(),
    ));
    program.instructions.push(graph);
    program.instructions.push(Instruction::new(OperationType::Print, math("1")));
    let effects = run(program, Vec::new(), Vec::new(), DataType::Decimal).unwrap();
    // The render is collected for background work; the print still happened.
    assert_eq!(effects.prints, vec!["1".to_string()]);
    assert_eq!(effects.renders.len(), 1);
    let job = &effects.renders[0];
    assert_eq!(job.function_name, "f");
    assert_eq!(job.title.as_deref(), Some("squares"));
    assert_eq!(job.min_x, 0);
    assert_eq!(job.max_x, 3);
    assert_eq!(job.min_y, -10);
    assert_eq!(job.max_y, 100);
    assert_eq!(job.step_x, "10");
    let coords: Vec<(i64, String)> = job.coordinates.clone();
    assert_eq!(coords.len(), 3);
    assert_eq!(coords[0], (0, "0".to_string()));
    assert_eq!(coords[1], (1, "1".to_string()));
    assert_eq!(coords[2], (2, "4".to_string()));
}

#[test]
fn graphing_an_unknown_function_is_fatal() {
    let mut program = empty_program("prog.bn");
    program.instructions.push(Instruction::new(OperationType::Graph, math("g")));
    let err = run(program, Vec::new(), Vec::new(), DataType::Decimal).unwrap_err();
    assert!(matches!(err, BeanieError::UnknownFunction(_)));
}

#[test]
fn run_binds_inputs_through_instructions() {
    let mut program = empty_program("prog.bn");
    program.instructions.push(Instruction::new(OperationType::In, math("a")));
    program.instructions.push(Instruction::new(OperationType::In, math("b")));
    program.instructions.push(Instruction::new(OperationType::Print, math("a + b")));
    let parameters = vec!["3".to_string(), "4".to_string()];
    let effects = run(program, parameters, Vec::new(), DataType::Decimal).unwrap();
    assert_eq!(effects.prints, vec!["7".to_string()]);
}

#[test]
fn using_the_same_file_twice_registers_one_function() {
    let mut program = empty_program("main.bn");
    program.instructions.push(Instruction::new(
        OperationType::Use,
        BeanieExpression::FilePath("lib/a.bn".to_string()),
    ));
    program.instructions.push(Instruction::new(
        OperationType::Use,
        BeanieExpression::FilePath("lib/a.bn".to_string()),
    ));
    program.instructions.push(Instruction::new(OperationType::Print, math("a() + a()")));
    let imports = vec![import("lib/a.bn", "qqq", one_output_import("5"))];
    let effects = run(program, Vec::new(), imports, DataType::Decimal).unwrap();
    assert_eq!(effects.prints, vec!["10".to_string()]);
}

#[test]
fn out_writes_to_an_explicit_target() {
    let mut program = empty_program("prog.bn");
    let mut out = Instruction::new(OperationType::Out, math("2 * 2"));
    out.add_argument("output-to-file".to_string(), BeanieExpression::Boolean(true));
    out.add_argument(
        "output-file".to_string(),
        BeanieExpression::FilePath("results.txt".to_string()),
    );
    program.instructions.push(out);
    let effects = run(program, Vec::new(), Vec::new(), DataType::Decimal).unwrap();
    assert_eq!(effects.writes.len(), 1);
    assert_eq!(effects.writes[0].path, "results.txt");
    assert_eq!(effects.writes[0].text, "4\n");
}

#[test]
fn unknown_operation_arguments_fail_the_run() {
    let mut program = empty_program("prog.bn");
    let mut out = Instruction::new(OperationType::Out, math("1"));
    out.add_argument("bogus".to_string(), BeanieExpression::Boolean(true));
    program.instructions.push(out);
    let err = run(program, Vec::new(), Vec::new(), DataType::Decimal).unwrap_err();
    assert!(matches!(err, BeanieError::UnknownArgument(_)));
}

#[test]
fn imported_functions_take_their_inputs_as_parameters() {
    let mut library = empty_program("lib/twice.bn");
    library.instructions.push(Instruction::new(OperationType::In, math("n")));
    library.instructions.push(Instruction::new(OperationType::Out, math("n + n")));
    let mut program = empty_program("main.bn");
    program.instructions.push(Instruction::new(
        OperationType::Use,
        BeanieExpression::FilePath("lib/twice.bn".to_string()),
    ));
    program.instructions.push(Instruction::new(OperationType::Print, math("twice(6)")));
    let imports = vec![import("lib/twice.bn", "zzz", library)];
    let effects = run(program, Vec::new(), imports, DataType::Decimal).unwrap();
    assert_eq!(effects.prints, vec!["12".to_string()]);
}
