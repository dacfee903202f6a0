//! Parsing whole expressions and programs into the syntax tree.
use cacau::ast::ArithExpr;
use cacau::ast::ArithOp;
use cacau::ast::ArithOp::Add;
use cacau::ast::ArithOp::Div;
use cacau::ast::ArithOp::Mul;
use cacau::ast::ArithOp::Sub;
use cacau::ast::CacauProgram;
use cacau::ast::Expr;
use cacau::ast::FnCall;
use cacau::ast::Lit;
use cacau::ast::Lit::Int;
use cacau::ast::Statement;

fn b<T>(t: T) -> Box<T> {
    Box::new(t)
}

fn parse_exp(s: &str) -> Expr {
    cacau::parser::parse_expr(s).unwrap()
}

fn parse_program(s: &str) -> CacauProgram {
    cacau::parser::parse(s).unwrap()
}

fn l(n: i64) -> Expr {
    Expr::Lit(Int(n))
}

fn a(left: Expr, op: ArithOp, right: Expr) -> Expr {
    Expr::Arith(b(ArithExpr { left, op, right }))
}

#[test]
fn test() {
    assert_eq!(parse_exp("22"), l(22));
    assert_eq!(parse_exp("(22)"), Expr::Paren(b(l(22))));
    assert_eq!(parse_exp("((22))"), Expr::Paren(b(Expr::Paren(b(l(22))))));

    assert_eq!(parse_exp("22 + 21"), a(l(22), Add, l(21)));
    assert_eq!(
        parse_exp("22 + 21 + 20"),
        a(a(l(22), Add, l(21)), Add, l(20))
    );

    assert_eq!(
        parse_exp("22 + 21 * (10 - 5) - 10 * 8 / 9"),
        a(
            a(
                l(22),
                Add,
                a(
                    l(21),
                    Mul,
                    Expr::Paren(b(
                        a(
                            l(10),
                            Sub,
                            l(5)
                        )
                    )),
                ),
            ),
            Sub,
            a(
                a(
                    l(10),
                    Mul,
                    l(8)
                ),
                Div,
                l(9),
            )
        )
    );
}

#[test]
fn empty_program() {
    assert_eq!(parse_program(""), CacauProgram { items: vec![] });
}

#[test]
fn lib_hello_world() {
    assert_eq!(
        parse_program(r#"println("Hello, world!");"#),
        CacauProgram {
            items: vec![Statement::Expr(Expr::FnCall(b(FnCall {
                callee: Expr::Id("println".into()),
                params: vec![Expr::Lit(Lit::String("Hello, world!".into()))]
            })))]
        }
    );
}

#[test]
fn empty_string() {
    assert_eq!(parse_exp(r#""""#), Expr::Lit(Lit::String("".into())))
}

#[test]
fn nonempty_string() {
    assert_eq!(
        parse_exp(r#""Test String""#),
        Expr::Lit(Lit::String("Test String".into()))
    )
}

#[test]
fn bool_false() {
    assert_eq!(parse_exp("false"), Expr::Lit(Lit::Bool(false)))
}

#[test]
fn bool_true() {
    assert_eq!(parse_exp("true"), Expr::Lit(Lit::Bool(true)))
}

#[test]
fn simplest_function_call() {
    assert_eq!(
        parse_exp("f()"),
        Expr::FnCall(b(FnCall {
            callee: Expr::Id("f".into()),
            params: vec![]
        }))
    )
}

#[test]
fn single_param_function_call() {
    assert_eq!(
        parse_exp("f(1)"),
        Expr::FnCall(b(FnCall {
            callee: Expr::Id("f".into()),
            params: vec![Expr::Lit(Lit::Int(1))]
        }))
    )
}

#[test]
fn single_param_function_call2() {
    assert_eq!(
        parse_exp("f(\"a\")"),
        Expr::FnCall(b(FnCall {
            callee: Expr::Id("f".into()),
            params: vec![Expr::Lit(Lit::String("a".into()))]
        }))
    )
}

#[test]
fn float_literal_keeps_text() {
    assert_eq!(parse_exp("123.4"), Expr::Lit(Lit::Float("123.4".into())));
}

#[test]
fn precedence_tree() {
    // multiplication binds tighter than addition
    assert_eq!(parse_exp("2 + 3 * 4"), a(l(2), Add, a(l(3), Mul, l(4))));
    // exponentiation is right-associative
    assert_eq!(
        parse_exp("2 ^ 3 ^ 2"),
        a(l(2), ArithOp::Pow, a(l(3), ArithOp::Pow, l(2)))
    );
}

#[test]
fn syntax_error_positions() {
    assert!(cacau::parser::parse_expr("1 +").is_err());
    assert!(cacau::parser::parse("let = 5;").is_err());
    assert!(cacau::parser::parse("print(1)").is_err()); // missing terminator
}

#[test]
fn arithmetic_term_tree() {
    let t = cacau::parser::ast::parse("2 + 3").unwrap();
    assert_eq!(
        t,
        cacau::parser::ast::Term::ArithmeticOperation(Box::new(
            cacau::parser::ast::ArithmeticOperation {
                left: cacau::parser::ast::Term::Literal(
                    cacau::parser::ast::Literal::IntegerLiteral(
                        cacau::parser::ast::IntegerLiteral(2)
                    )
                ),
                op: cacau::parser::ast::ArithmeticOperator::Add,
                right: cacau::parser::ast::Term::Literal(
                    cacau::parser::ast::Literal::IntegerLiteral(
                        cacau::parser::ast::IntegerLiteral(3)
                    )
                ),
            }
        ))
    );
    // grouping parentheses are transparent in the arithmetic tree
    let t2 = cacau::parser::ast::parse("(2) + (3)").unwrap();
    assert_eq!(t, t2);
    // a call cannot stand in the arithmetic-only tree
    assert!(cacau::parser::ast::parse("f(1)").is_err());
}
