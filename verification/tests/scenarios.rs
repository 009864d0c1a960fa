use rlox::vm::{InterpretResult, VM};

fn run(source: &str) -> (Result<(), InterpretResult>, Vec<String>, Vec<String>) {
    let mut vm = VM::new();
    let result = vm.interpret(source);
    (result, vm.printed, vm.diagnostics)
}

#[test]
fn arithmetic_precedence_prints_seven() {
    let (result, printed, _) = run("print 1 + 2 * 3;");
    assert!(result.is_ok());
    assert_eq!(printed, vec!["7".to_string()]);
}

#[test]
fn string_concatenation() {
    let (result, printed, _) = run("var a = \"hi\"; var b = \" there\"; print a + b;");
    assert!(result.is_ok());
    assert_eq!(printed, vec!["hi there".to_string()]);
}

#[test]
fn while_loop_counts() {
    let (result, printed, _) = run("var x = 0; while (x < 3) { print x; x = x + 1; }");
    assert!(result.is_ok());
    assert_eq!(printed, vec!["0".to_string(), "1".to_string(), "2".to_string()]);
}

#[test]
fn and_short_circuits_to_else() {
    let (result, printed, _) = run("if (true and false) print \"y\"; else print \"n\";");
    assert!(result.is_ok());
    assert_eq!(printed, vec!["n".to_string()]);
}

#[test]
fn undefined_global_is_runtime_error() {
    let (result, printed, diagnostics) = run("print undefined_var;");
    assert_eq!(result, Err(InterpretResult::RuntimeError));
    assert!(printed.is_empty());
    assert_eq!(diagnostics[0], "Undefined variable undefined_var");
    assert_eq!(diagnostics[1], "[line 1] in script");
}

#[test]
fn shadowing_in_block() {
    let (result, printed, _) = run("var x = 1; x = 2; { var x = 3; print x; } print x;");
    assert!(result.is_ok());
    assert_eq!(printed, vec!["3".to_string(), "2".to_string()]);
}

#[test]
fn mixed_addition_is_runtime_error() {
    let (result, _, diagnostics) = run("print 1 + \"a\";");
    assert_eq!(result, Err(InterpretResult::RuntimeError));
    assert_eq!(diagnostics[0], "Both operands have to be string or number!");
}

#[test]
fn missing_semicolon_is_compile_error() {
    let (result, printed, diagnostics) = run("var a = 1 print a;");
    assert_eq!(result, Err(InterpretResult::CompilerError));
    assert!(printed.is_empty());
    assert_eq!(diagnostics[0], "[line 1] Error at print : Expect ';' after expression.");
}

#[test]
fn division_by_zero_is_runtime_error() {
    let (result, _, diagnostics) = run("print 1 / 0;");
    assert_eq!(result, Err(InterpretResult::RuntimeError));
    assert_eq!(diagnostics[0], "Cannot divide by 0!");
}

#[test]
fn or_short_circuits() {
    let (result, printed, _) = run("if (false or true) print \"y\"; else print \"n\";");
    assert!(result.is_ok());
    assert_eq!(printed, vec!["y".to_string()]);
}

#[test]
fn for_loop_counts() {
    let (result, printed, _) = run("for (var i = 0; i < 3; i = i + 1) print i;");
    assert!(result.is_ok());
    assert_eq!(printed, vec!["0".to_string(), "1".to_string(), "2".to_string()]);
}

#[test]
fn comparison_chain() {
    let (result, printed, _) = run("print 1 < 2; print 2 <= 2; print 3 > 4; print 4 >= 4; print 1 == 1; print 1 != 2;");
    assert!(result.is_ok());
    let t = "true".to_string();
    let f = "false".to_string();
    assert_eq!(printed, vec![t.clone(), t.clone(), f, t.clone(), t.clone(), t]);
}

#[test]
fn unary_operators() {
    let (result, printed, _) = run("print -3; print !nil; print !0;");
    assert!(result.is_ok());
    assert_eq!(
        printed,
        vec!["-3".to_string(), "true".to_string(), "false".to_string()]
    );
}

#[test]
fn negate_non_number_is_runtime_error() {
    let (result, _, diagnostics) = run("print -\"a\";");
    assert_eq!(result, Err(InterpretResult::RuntimeError));
    assert_eq!(diagnostics[0], "Operand must be a number");
}

#[test]
fn assignment_to_undefined_global_is_runtime_error() {
    let (result, _, diagnostics) = run("missing = 1;");
    assert_eq!(result, Err(InterpretResult::RuntimeError));
    assert_eq!(diagnostics[0], "Undefined variable 'missing'");
}

#[test]
fn local_read_in_own_initializer_is_compile_error() {
    let (result, _, _) = run("{ var a = a; }");
    assert_eq!(result, Err(InterpretResult::CompilerError));
}

#[test]
fn duplicate_local_is_compile_error() {
    let (result, _, _) = run("{ var a = 1; var a = 2; }");
    assert_eq!(result, Err(InterpretResult::CompilerError));
}

#[test]
fn invalid_assignment_target_is_compile_error() {
    let (result, _, _) = run("1 + 2 = 3;");
    assert_eq!(result, Err(InterpretResult::CompilerError));
}

#[test]
fn globals_persist_across_interprets() {
    let mut vm = VM::new();
    assert!(vm.interpret("var total = 40;").is_ok());
    assert!(vm.interpret("print total + 2;").is_ok());
    assert_eq!(vm.printed, vec!["42".to_string()]);
}

#[test]
fn fractional_arithmetic_prints_plain_decimal() {
    let (result, printed, _) = run("print 0.5 + 0.25;");
    assert!(result.is_ok());
    assert_eq!(printed, vec!["0.75".to_string()]);
}

#[test]
fn subtraction_of_string_is_runtime_error() {
    let (result, _, diagnostics) = run("print 1 - \"a\";");
    assert_eq!(result, Err(InterpretResult::RuntimeError));
    assert_eq!(diagnostics[0], "Both operands need to be numbers");
}

#[test]
fn unterminated_string_is_compile_error() {
    let (result, _, _) = run("print \"abc");
    assert_eq!(result, Err(InterpretResult::CompilerError));
}

#[test]
fn printed_output_is_deterministic_across_runs() {
    let source = "var a = 1.5; var b = 2.25; print a * b; print \"x\" + \"y\"; print a < b;";
    let (r1, p1, _) = run(source);
    let (r2, p2, _) = run(source);
    assert!(r1.is_ok());
    assert_eq!(r1, r2);
    assert_eq!(p1, p2);
}
