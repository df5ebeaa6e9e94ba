use minlang::compile;
use minlang::diagnostics::DiagnosticKind;

fn count_occurrences(haystack: &str, needle: &str) -> usize {
    let mut count = 0;
    let mut rest = haystack;
    while let Some(pos) = rest.find(needle) {
        count += 1;
        rest = &rest[pos + needle.len()..];
    }
    count
}

#[test]
fn scenario_add_compiles_to_exported_module() {
    let wat = compile("fun add(a:int,b:int):int { return a+b; }").unwrap();
    assert!(wat.starts_with("(module"));
    assert_eq!(count_occurrences(&wat, "i32.add"), 1);
    assert_eq!(count_occurrences(&wat, "return"), 1);
    assert!(wat.contains("(func $add"));
    assert!(wat.contains("param $a i32"));
    assert!(wat.contains("param $b i32"));
    assert!(wat.contains("(result i32)"));
    assert!(wat.contains("local.get $a"));
    assert!(wat.contains("local.get $b"));
    assert!(wat.contains("(export \"add\" (func $add))"));
}

#[test]
fn scenario_if_without_else_misses_return_path() {
    let err = compile("fun f():int { if 1==2 { return 1; } }").unwrap_err();
    assert_eq!(err.kind, DiagnosticKind::ControlFlowError);
    assert!(err.text.contains("not all code paths return a value"));
    assert!(err.text.contains("f"));
}

#[test]
fn scenario_if_with_returning_else_passes_the_checker() {
    let r = compile("fun f():int { if 1==2 { return 1; } else { return 3; } }");
    assert!(r.is_ok());
    let wat = r.unwrap();
    assert!(wat.contains("if"));
    assert!(wat.contains("else"));
    assert!(wat.contains("end"));
}

#[test]
fn scenario_duplicate_parameter_is_a_scope_error() {
    let err = compile("fun f(a:int,a:float):int{return a;}").unwrap_err();
    assert_eq!(err.kind, DiagnosticKind::ScopeError);
    assert!(err.text.contains("a"));
}

#[test]
fn scenario_string_concatenation_type_checks_and_subtraction_does_not() {
    // `+` on two strings passes analysis; the string type then has no
    // instruction-family mapping, which the generator reports.
    let plus = compile("fun f(a:string,b:string):string { return a+b; }").unwrap_err();
    assert_eq!(plus.kind, DiagnosticKind::CodeGenError);
    // `-` on two strings is rejected earlier, by the analyzer.
    let minus = compile("fun f(a:string,b:string):string { return a-b; }").unwrap_err();
    assert_eq!(minus.kind, DiagnosticKind::TypeError);
}

#[test]
fn scenario_while_loop_lowers_once_whatever_the_condition() {
    let wat = compile("fun f():int { while 0 { let x = 1; } return 2; }").unwrap();
    assert_eq!(count_occurrences(&wat, "(block"), 1);
    assert_eq!(count_occurrences(&wat, "(loop"), 1);
    assert_eq!(count_occurrences(&wat, "br_if 1"), 1);
    assert_eq!(count_occurrences(&wat, "br 0"), 1);
    assert_eq!(count_occurrences(&wat, "i32.eq"), 1);
    // the loop body is emitted even though it never executes
    assert!(wat.contains("local.set $x"));

    // a non-zero condition lowers to exactly the same shape
    let wat2 = compile("fun f():int { while 1 { let x = 1; } return 2; }").unwrap();
    assert_eq!(count_occurrences(&wat2, "(block"), 1);
    assert_eq!(count_occurrences(&wat2, "(loop"), 1);
    assert_eq!(count_occurrences(&wat2, "br_if 1"), 1);
    assert_eq!(count_occurrences(&wat2, "br 0"), 1);
}

#[test]
fn break_outside_a_loop_is_a_loop_control_error() {
    let err = compile("fun f() { break; }").unwrap_err();
    assert_eq!(err.kind, DiagnosticKind::LoopControlError);
    let err2 = compile("fun f() { continue; }").unwrap_err();
    assert_eq!(err2.kind, DiagnosticKind::LoopControlError);
}

#[test]
fn break_inside_a_while_body_passes_analysis() {
    // the analyzer accepts loop control inside a while body; lowering
    // loop-control statements is outside the backend's remit
    let err = compile("fun f() { while 1 { break; } }").unwrap_err();
    assert_eq!(err.kind, DiagnosticKind::CodeGenError);
}

#[test]
fn mismatched_operand_types_are_a_type_error() {
    let err = compile("fun f():int { return 1 + 1.5; }").unwrap_err();
    assert_eq!(err.kind, DiagnosticKind::TypeError);
}

#[test]
fn undeclared_variable_is_a_scope_error() {
    let err = compile("fun f():int { return y; }").unwrap_err();
    assert_eq!(err.kind, DiagnosticKind::ScopeError);
    assert!(err.text.contains("y"));
}

#[test]
fn redeclaration_in_the_same_scope_is_a_scope_error() {
    let err = compile("fun f() { let x = 1; let x = 2; }").unwrap_err();
    assert_eq!(err.kind, DiagnosticKind::ScopeError);
}

#[test]
fn shadowing_across_scopes_passes_analysis_but_not_the_backend() {
    // an inner declaration may shadow an outer one, but the flattened
    // local-variable namespace of the target cannot express it
    let err = compile("fun f() { let x = 1; while 1 { let x = 2; } }").unwrap_err();
    assert_eq!(err.kind, DiagnosticKind::CodeGenError);
}

#[test]
fn assignment_requires_identical_types() {
    let err = compile("fun f() { let x = 1; x = 1.5; }").unwrap_err();
    assert_eq!(err.kind, DiagnosticKind::TypeError);
    let ok = compile("fun f() { let x = 1; x = 2; }");
    assert!(ok.is_ok());
}

#[test]
fn calls_check_arity_and_argument_types() {
    let arity = compile("fun g(a:int):int { return a; } fun f():int { return g(1,2); }")
        .unwrap_err();
    assert_eq!(arity.kind, DiagnosticKind::TypeError);
    let ty = compile("fun g(a:int):int { return a; } fun f():int { return g(1.5); }")
        .unwrap_err();
    assert_eq!(ty.kind, DiagnosticKind::TypeError);
    let ok = compile("fun g(a:int):int { return a; } fun f():int { return g(7); }").unwrap();
    assert!(ok.contains("call $g"));
}

#[test]
fn a_function_cannot_call_itself() {
    // signatures are registered only after a body passes analysis
    let err = compile("fun f(a:int):int { return f(a); }").unwrap_err();
    assert_eq!(err.kind, DiagnosticKind::ScopeError);
}

#[test]
fn call_statement_with_discarded_result_emits_a_drop() {
    let wat = compile("fun g():int { return 1; } fun f() { g(); }").unwrap();
    assert!(wat.contains("call $g"));
    assert!(wat.contains("drop"));
}

#[test]
fn float_family_instructions_are_selected_by_the_left_hand_type() {
    let wat = compile("fun f(a:float,b:float):float { return a*b; }").unwrap();
    assert!(wat.contains("f32.mul"));
    assert!(wat.contains("param $a f32"));
    assert!(wat.contains("(result f32)"));
}

#[test]
fn unary_operators_lower_through_constants() {
    let wat = compile("fun f(a:int):int { return -a; }").unwrap();
    assert!(wat.contains("i32.const -1"));
    assert!(wat.contains("i32.mul"));
    let wat2 = compile("fun f(a:int):int { return !a; }").unwrap();
    assert!(wat2.contains("i32.const 0"));
    assert!(wat2.contains("i32.eq"));
}

#[test]
fn division_is_signed_for_integers_and_plain_for_floats() {
    let wat = compile("fun f(a:int,b:int):int { return a/b; }").unwrap();
    assert!(wat.contains("i32.div_s"));
    let wat2 = compile("fun f(a:float,b:float):float { return a/b; }").unwrap();
    assert!(wat2.contains("f32.div"));
    assert!(!wat2.contains("f32.div_s"));
}

#[test]
fn local_declarations_are_flattened_into_the_header() {
    let wat = compile("fun f():int { let x = 1; let y = 2.5; return x; }").unwrap();
    assert!(wat.contains("(local $x i32)"));
    assert!(wat.contains("(local $y f32)"));
}

#[test]
fn a_void_function_needs_no_return_path() {
    let r = compile("fun f() { let x = 1; }");
    assert!(r.is_ok());
}

#[test]
fn return_type_mismatches_are_type_errors() {
    let err = compile("fun f():int { return 1.5; }").unwrap_err();
    assert_eq!(err.kind, DiagnosticKind::TypeError);
    let err2 = compile("fun f():int { return; }").unwrap_err();
    assert_eq!(err2.kind, DiagnosticKind::TypeError);
    let err3 = compile("fun f() { return 1; }").unwrap_err();
    assert_eq!(err3.kind, DiagnosticKind::TypeError);
}

#[test]
fn unexpected_tokens_are_parse_errors() {
    let err = compile("fun f( { }").unwrap_err();
    assert_eq!(err.kind, DiagnosticKind::ParseError);
    let err2 = compile("fun 1f() {}").unwrap_err();
    assert_eq!(err2.kind, DiagnosticKind::ParseError);
}

#[test]
fn unrecognized_characters_are_lexical_errors() {
    let err = compile("fun f() { let x = 1 # 2; }").unwrap_err();
    assert_eq!(err.kind, DiagnosticKind::LexError);
    assert!(err.text.contains("#"));
}

#[test]
fn duplicate_function_names_are_scope_errors() {
    let err = compile("fun f() { } fun f() { }").unwrap_err();
    assert_eq!(err.kind, DiagnosticKind::ScopeError);
}

#[test]
fn else_if_chains_compile() {
    let wat = compile(
        "fun f(a:int):int { if a < 1 { return 1; } else if a < 2 { return 2; } else { return 3; } }",
    )
    .unwrap();
    assert_eq!(count_occurrences(&wat, "if"), 2);
    assert_eq!(count_occurrences(&wat, "else"), 2);
    assert_eq!(count_occurrences(&wat, "end"), 2);
    assert!(wat.contains("i32.lt_s"));
}

#[test]
fn diagnostics_carry_positions() {
    let err = compile("fun f():int {\n  return y;\n}").unwrap_err();
    assert_eq!(err.kind, DiagnosticKind::ScopeError);
    assert_eq!(err.line, 2);
    assert_eq!(err.col, 10);
}
