use beanie::beanie_context::BeanieContext;
use beanie::data_type::DataType;
use beanie::expression::BeanieExpression;
use beanie::function::Function;
use beanie::idents::{add_suffix, builtin_name, suffix_math_text};
use beanie::instruction::{Instruction, OperationType};
use beanie::text::{chars_to_string, file_stem, default_output_path, int_to_chars};

fn chars(s: &str) -> Vec<char> {
    s.chars().collect()
}

#[test]
fn suffixing_skips_builtins_and_rewrites_user_names() {
    let rewritten = suffix_math_text(&chars("radius + sin(radius) * pi"), &chars("k7"));
    assert_eq!(chars_to_string(&rewritten), "radius_k7 + sin(radius_k7) * pi");
}

#[test]
fn an_empty_suffix_changes_nothing() {
    let rewritten = suffix_math_text(&chars("radius + 1"), &chars(""));
    assert_eq!(chars_to_string(&rewritten), "radius + 1");
    assert_eq!(chars_to_string(&add_suffix(&chars("radius"), &chars(""))), "radius");
}

#[test]
fn numbers_and_operators_stay_in_place() {
    let rewritten = suffix_math_text(&chars("2x + x2 - 10"), &chars("s"));
    assert_eq!(chars_to_string(&rewritten), "2x_s + x2_s - 10");
}

#[test]
fn builtin_names_are_recognized() {
    assert!(builtin_name(&chars("sqrt")));
    assert!(builtin_name(&chars("pi")));
    assert!(builtin_name(&chars("atant")));
    assert!(!builtin_name(&chars("radius")));
    assert!(!builtin_name(&chars("sqrt2")));
}

#[test]
fn whole_programs_are_rewritten() {
    let mut program = BeanieContext {
        beanie_file_path: "lib/a.bn".to_string(),
        constants: vec![(
            vec!["r".to_string()],
            BeanieExpression::Math("1 + e".to_string(), DataType::Decimal),
        )],
        functions: vec![Function::new(
            "f".to_string(),
            vec!["q".to_string()],
            BeanieExpression::Math("q * r".to_string(), DataType::Decimal),
        )],
        instructions: Vec::new(),
    };
    program.instructions.push(Instruction::new(
        OperationType::Out,
        BeanieExpression::Math("f(r)".to_string(), DataType::Decimal),
    ));
    let rewritten = program.apply_suffix(&chars("z9"));
    assert_eq!(rewritten.constants[0].0, vec!["r_z9".to_string()]);
    match &rewritten.constants[0].1 {
        BeanieExpression::Math(t, _) => assert_eq!(t, "1 + e"),
        _ => panic!("constant expression kind changed"),
    }
    assert_eq!(rewritten.functions[0].name, "f_z9");
    assert_eq!(rewritten.functions[0].parameters, vec!["q_z9".to_string()]);
    match &rewritten.functions[0].expression {
        BeanieExpression::Math(t, _) => assert_eq!(t, "q_z9 * r_z9"),
        _ => panic!("function body kind changed"),
    }
    match &rewritten.instructions[0].expression {
        BeanieExpression::Math(t, _) => assert_eq!(t, "f_z9(r_z9)"),
        _ => panic!("instruction expression kind changed"),
    }
}

#[test]
fn file_stems_drop_directory_and_extension() {
    assert_eq!(chars_to_string(&file_stem(&chars("lib/a.bn"))), "a");
    assert_eq!(chars_to_string(&file_stem(&chars("a.bn"))), "a");
    assert_eq!(chars_to_string(&file_stem(&chars("lib/nested/prog.v2.bn"))), "prog.v2");
    assert_eq!(chars_to_string(&file_stem(&chars("noext"))), "noext");
}

#[test]
fn default_output_paths_sit_beside_the_source() {
    assert_eq!(chars_to_string(&default_output_path(&chars("dir/prog.bn"))), "dir/prog_out.txt");
    assert_eq!(chars_to_string(&default_output_path(&chars("prog.bn"))), "prog_out.txt");
}

#[test]
fn integers_render_in_decimal() {
    assert_eq!(chars_to_string(&int_to_chars(0)), "0");
    assert_eq!(chars_to_string(&int_to_chars(907)), "907");
    assert_eq!(chars_to_string(&int_to_chars(-42)), "-42");
    assert_eq!(chars_to_string(&int_to_chars(i64::MIN)), "-9223372036854775808");
}
