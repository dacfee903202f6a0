//! Running syntax trees built directly, without the parser.
use cacau::ast::CacauProgram;
use cacau::ast::CmpExpr;
use cacau::ast::CmpOp;
use cacau::ast::Expr;
use cacau::ast::FnCall;
use cacau::ast::Lit;
use cacau::ast::Statement;
use cacau::ast::VariableDecl;
use cacau::runner::Runner;

fn call(name: &str, arg: Expr) -> Statement {
    Statement::Expr(Expr::FnCall(Box::new(FnCall {
        callee: Expr::Id(name.into()),
        params: vec![arg],
    })))
}

fn bind(name: &str, value: Expr) -> Statement {
    Statement::Expr(Expr::VarDecl(Box::new(VariableDecl {
        name: name.into(),
        type_annotation: None,
        expr: value,
    })))
}

#[test]
fn test_hello() {
    // hello world syntax tree
    let program = CacauProgram {
        items: vec![call(
            "println",
            Expr::Lit(Lit::String("Hello, World!".into())),
        )],
    };

    // run
    let (stdout, error) = Runner::run(&program);

    // check output
    assert!(error.is_none());
    assert_eq!(stdout, "Hello, World!\n")
}

#[test]
fn simple_assign() {
    let program = CacauProgram {
        items: vec![
            bind("hello", Expr::Lit(Lit::String("Hello, World!".into()))),
            call("println", Expr::Id("hello".into())),
        ],
    };

    // run
    let (stdout, error) = Runner::run(&program);

    // check output
    assert!(error.is_none());
    assert_eq!(stdout, "Hello, World!\n")
}

#[test]
fn comparisons() {
    fn assert_cmp(var: &'static str, op: CmpOp, value: Expr) -> Statement {
        call(
            "assert",
            Expr::Cmp(Box::new(CmpExpr {
                left: Expr::Id(var.into()),
                op,
                right: value,
            })),
        )
    }

    fn text(s: &str) -> Expr {
        Expr::Lit(Lit::String(s.into()))
    }

    let program = CacauProgram {
        items: vec![
            call("assert", Expr::Lit(Lit::Bool(true))),
            bind("text", text("foo")),
            assert_cmp("text", CmpOp::EQ, text("foo")),
            assert_cmp("text", CmpOp::GE, text("foo")),
            assert_cmp("text", CmpOp::LE, text("foo")),
            assert_cmp("text", CmpOp::GT, text("aaa")),
            assert_cmp("text", CmpOp::GE, text("aaa")),
            assert_cmp("text", CmpOp::LT, text("zzz")),
            assert_cmp("text", CmpOp::LE, text("zzz")),
            assert_cmp("text", CmpOp::NE, text("bar")),
        ],
    };

    // run
    let (_stdout, error) = Runner::run(&program);
    assert!(error.is_none());
}
