//! The evaluator's semantics on concrete programs: operator rules,
//! coercions, casts, builtins and every error the taxonomy names.
use cacau::ast::Assign;
use cacau::ast::CacauProgram;
use cacau::ast::Expr;
use cacau::ast::Lit;
use cacau::ast::Statement;
use cacau::errors::CacauError;
use cacau::errors::EvalError;
use cacau::mem::SymbolTable;
use cacau::mem::Value;
use cacau::runner::Runner;

fn run(input: &str) -> String {
    let (output, error) = cacau::run_source(input);
    assert!(error.is_none(), "program failed: {:?}", error);
    output
}

fn run_err(input: &str) -> (String, EvalError) {
    let (output, error) = cacau::run_source(input);
    match error {
        Some(CacauError::Eval(e)) => (output, e),
        other => panic!("expected an evaluation error, got {:?}", other),
    }
}

fn syntax_fails(input: &str) {
    let (output, error) = cacau::run_source(input);
    assert_eq!(output, "");
    assert!(matches!(error, Some(CacauError::Syntax(_))));
}

#[test]
fn precedence_values() {
    assert_eq!(run("print(2 + 3 * 4);"), "14");
    assert_eq!(run("print(2 ^ 3 ^ 2);"), "512");
    assert_eq!(run("print((2 + 3) * 4);"), "20");
    assert_eq!(run("print(2 - 3 - 4);"), "-5");
    assert_eq!(run("print(20 / 2 / 5);"), "2");
}

#[test]
fn truncating_division_and_modulo() {
    assert_eq!(run("print(7 / 2);"), "3");
    assert_eq!(run("print(-7 / 2);"), "-3");
    assert_eq!(run("print(7 / -2);"), "-3");
    assert_eq!(run("print(-7 / -2);"), "3");
    assert_eq!(run("print(7 % 3);"), "1");
    assert_eq!(run("print(-7 % 3);"), "-1");
    assert_eq!(run("print(7 % -3);"), "1");
    assert_eq!(run("print(-7 % -3);"), "-1");
}

#[test]
fn division_by_zero() {
    let (_, e) = run_err("print(1 / 0);");
    assert_eq!(e, EvalError::DivisionByZero);
    let (_, e) = run_err("print(1 % 0);");
    assert_eq!(e, EvalError::DivisionByZero);
}

#[test]
fn integer_arithmetic_wraps() {
    assert_eq!(
        run("print(9223372036854775807 + 1);"),
        "-9223372036854775808"
    );
    assert_eq!(run("print(0 - 9223372036854775807 - 1);"), "-9223372036854775808");
}

#[test]
fn power_rules() {
    assert_eq!(run("print(2 ^ 10);"), "1024");
    assert_eq!(run("print(5 ^ 0);"), "1");
    let (_, e) = run_err("print(2 ^ -1);");
    assert!(matches!(e, EvalError::UnsupportedOperation(_, _, _)));
}

#[test]
fn string_operations() {
    assert_eq!(run(r#"print("foo" + "bar");"#), "foobar");
    assert_eq!(run(r#"print("ab" * 3);"#), "ababab");
    assert_eq!(run(r#"print("ab" * 0);"#), "");
    assert_eq!(run(r#"print("ab" * -2);"#), "");
    let (_, e) = run_err(r#"print("a" - "b");"#);
    assert!(matches!(e, EvalError::UnsupportedOperation(_, _, _)));
}

#[test]
fn comparison_rules() {
    assert_eq!(run(r#"print("abc" < "abd");"#), "true");
    assert_eq!(run(r#"print("abc" < "ab");"#), "false");
    assert_eq!(run("print('a' < 'b');"), "true");
    assert_eq!(run("print(false < true);"), "true");
    assert_eq!(run("print(3 >= 3);"), "true");
    assert_eq!(run("print(2 != 3);"), "true");
    let (_, e) = run_err(r#"print(1 == "a");"#);
    assert!(matches!(e, EvalError::UnsupportedOperation(_, _, _)));
}

#[test]
fn logic_rules() {
    assert_eq!(run("print(true and false);"), "false");
    assert_eq!(run("print(false or true);"), "true");
    let (_, e) = run_err("print(1 and 2);");
    assert!(matches!(e, EvalError::UnsupportedOperation(_, _, _)));
    let (_, e) = run_err("print(not 1);");
    assert!(matches!(e, EvalError::UnsupportedOperation(_, _, _)));
    let (_, e) = run_err("print(-true);");
    assert!(matches!(e, EvalError::UnsupportedOperation(_, _, _)));
}

#[test]
fn assert_builtin() {
    assert_eq!(run("assert(true);"), "");
    let (_, e) = run_err("assert(false);");
    assert_eq!(e, EvalError::AssertionFailed);
    // by current policy, a non-boolean argument passes silently
    assert_eq!(run("assert(5);"), "");
}

#[test]
fn print_rules() {
    assert_eq!(run(r#"print("");"#), "");
    assert_eq!(run("print('x');"), "x");
    assert_eq!(run("println(true);"), "true\n");
    assert_eq!(run("print(1,);"), "1");
    let (_, e) = run_err("print(print(1));");
    assert!(matches!(e, EvalError::UnsupportedOperation(_, _, _)));
}

#[test]
fn output_kept_up_to_the_error() {
    let (out, e) = run_err("print(1); print(missing);");
    assert_eq!(out, "1");
    assert_eq!(e, EvalError::UndefinedIdentifier("missing".into()));
}

#[test]
fn unknown_functions() {
    let (_, e) = run_err("foo(1);");
    assert_eq!(e, EvalError::UnknownFunction("foo".into(), 1));
    let (_, e) = run_err("print(1, 2);");
    assert_eq!(e, EvalError::UnknownFunction("print".into(), 2));
    let (_, e) = run_err("print();");
    assert_eq!(e, EvalError::UnknownFunction("print".into(), 0));
}

#[test]
fn casts() {
    assert_eq!(run(r#"print(int("42"));"#), "42");
    assert_eq!(run(r#"print(int("+42"));"#), "42");
    assert_eq!(run(r#"print(int("-0007"));"#), "-7");
    assert_eq!(run(r#"print(int("9223372036854775807"));"#), "9223372036854775807");
    assert_eq!(run(r#"print(int("-9223372036854775808"));"#), "-9223372036854775808");
    assert_eq!(run(r#"print(bool("true"));"#), "true");
    assert_eq!(run("print(bool(0));"), "false");
    assert_eq!(run("print(bool(2));"), "true");
    assert_eq!(run("print(string(42) + string(true));"), "42true");
    assert_eq!(run("print(string('c'));"), "c");

    let (_, e) = run_err(r#"print(int("42x"));"#);
    assert_eq!(e, EvalError::CastFailed);
    let (_, e) = run_err(r#"print(int("9223372036854775808"));"#);
    assert_eq!(e, EvalError::CastFailed);
    let (_, e) = run_err(r#"print(bool("yes"));"#);
    assert_eq!(e, EvalError::CastFailed);
    let (_, e) = run_err("print(int(1));");
    assert_eq!(e, EvalError::UnsupportedCast);
    let (_, e) = run_err(r#"print(string("s"));"#);
    assert_eq!(e, EvalError::UnsupportedCast);
    let (_, e) = run_err("print(bool('c'));");
    assert_eq!(e, EvalError::UnsupportedCast);
}

#[test]
fn float_syntax_has_no_semantics() {
    // float literals parse, but evaluating one reports NotImplemented
    assert!(cacau::parser::parse("let a = 1.5;").is_ok());
    let (_, e) = run_err("print(1.5);");
    assert_eq!(e, EvalError::NotImplemented);
    let (_, e) = run_err("print(float(1));");
    assert_eq!(e, EvalError::NotImplemented);
    let (_, e) = run_err(r#"print(float("1.5"));"#);
    assert_eq!(e, EvalError::NotImplemented);
}

#[test]
fn compound_assignment() {
    assert_eq!(run("let a = 2; a += 3; print(a);"), "5");
    assert_eq!(run("let a = 2; a *= 3; print(a);"), "6");
    assert_eq!(run("let a = 7; a %= 4; print(a);"), "3");
    assert_eq!(run("let a = 2; a ^= 3; print(a);"), "8");
    let (_, e) = run_err("b += 1;");
    assert_eq!(e, EvalError::UndefinedIdentifier("b".into()));
}

#[test]
fn flat_namespace_rebinding() {
    // one flat namespace: a later binding replaces the earlier one
    assert_eq!(run(r#"let a = 1; let a = "two"; print(a);"#), "two");
}

#[test]
fn deep_nesting_within_reason() {
    // nesting depth is bounded only by the call stack; a few hundred
    // levels are comfortably inside it
    let mut source = String::new();
    for _ in 0..200 {
        source.push('(');
    }
    source.push('7');
    for _ in 0..200 {
        source.push(')');
    }
    let program = format!("print({});", source);
    assert_eq!(run(&program), "7");
}

#[test]
fn grouping_is_transparent() {
    assert_eq!(run("print((5));"), "5");
    assert_eq!(run("print(((1 + 2)));"), "3");
}

#[test]
fn invalid_assignment_target() {
    // only an identifier may stand on the left of an assignment
    let program = CacauProgram {
        items: vec![Statement::Expr(Expr::Assign(Box::new(Assign {
            destination: Expr::Lit(Lit::Int(1)),
            operator: None,
            value: Expr::Lit(Lit::Int(2)),
        })))],
    };
    let (_, error) = Runner::run(&program);
    assert_eq!(error, Some(EvalError::InvalidAssignmentTarget));
}

#[test]
fn declarations_not_implemented() {
    let program = CacauProgram {
        items: vec![Statement::Struct()],
    };
    let (_, error) = Runner::run(&program);
    assert_eq!(error, Some(EvalError::NotImplemented));
}

#[test]
fn syntax_errors() {
    syntax_fails("let = 5;");
    syntax_fails("print(1)");
    syntax_fails("1 +;");
    syntax_fails("$");
    // an integer literal beyond the 64-bit range is rejected at parse time
    syntax_fails("print(9223372036854775808);");
}

#[test]
fn literal_text_roundtrip() {
    // printing a value and reading it back through the casts is lossless
    // for integers and booleans
    assert_eq!(run("print(int(string(-12345)));"), "-12345");
    assert_eq!(run("print(bool(string(false)));"), "false");
    // and the printed form of an integer parses as the same source literal
    assert_eq!(run("let a = 42; print(int(string(a)) == a);"), "true");
}

#[test]
fn text_helpers() {
    let digits: Vec<char> = "42".chars().collect();
    assert_eq!(cacau::text::parse_i64(&digits), Some(42));
    let word: Vec<char> = "true".chars().collect();
    assert_eq!(cacau::text::parse_bool(&word), Some(true));
    assert_eq!(cacau::text::format_i64(-7), vec!['-', '7']);
    assert_eq!(cacau::text::chars_to_string(&['a', 'b']), "ab");
    assert!(cacau::text::str_eq("same", "same"));
    assert!(!cacau::text::str_eq("same", "other"));
}

#[test]
fn symbol_table_bindings() {
    let mut table = SymbolTable::new();
    assert!(table.get_value("a").is_none());
    table.create_var("a", Value::Integer(1));
    assert_eq!(table.get_value("a"), Some(&Value::Integer(1)));
    table.set_value("a", Value::Boolean(true));
    assert_eq!(table.get_value("a"), Some(&Value::Boolean(true)));
    assert!(table.get_value("b").is_none());
}
