//! The arithmetic-only syntax family: the tree the term-level parser
//! produces when text is matched against the arithmetic production alone.
//! Grouping parentheses are transparent here, as the mathematical tree
//! already encodes precedence.
use vstd::prelude::*;

use crate::ast::AbsArithExpr;
use crate::ast::AbsExpr;
use crate::ast::AbsLit;
use crate::ast::ArithOp;
use crate::errors::CacauError;
use crate::errors::EvalError;
use crate::errors::SyntaxError;
use crate::text::str_chars;

verus! {

/// A literal of the arithmetic tree.
#[derive(Debug, PartialEq)]
pub enum Literal {
    FloatLiteral(FloatLiteral),
    IntegerLiteral(IntegerLiteral),
    CharLiteral(CharLiteral),
    BooleanLiteral(BooleanLiteral),
    StringLiteral(StringLiteral),
}

/// A float literal, kept as its source text.
#[derive(Debug, PartialEq)]
pub struct FloatLiteral(pub String);

/// An integer literal.
#[derive(Debug, PartialEq)]
pub struct IntegerLiteral(pub i64);

/// A char literal.
#[derive(Debug, PartialEq)]
pub struct CharLiteral(pub char);

/// A boolean literal.
#[derive(Debug, PartialEq)]
pub struct BooleanLiteral(pub bool);

/// A string literal, without its quotes.
#[derive(Debug, PartialEq)]
pub struct StringLiteral(pub String);

/// A plain name.
#[derive(Debug, PartialEq)]
pub struct Identifier(pub String);

/// A node of the arithmetic tree.
#[derive(Debug, PartialEq)]
pub enum Term {
    Literal(Literal),
    Identifier(Identifier),
    ArithmeticOperation(Box<ArithmeticOperation>),
}

/// A binary arithmetic node of the arithmetic tree.
#[derive(Debug, PartialEq)]
pub struct ArithmeticOperation {
    pub left: Term,
    pub op: ArithmeticOperator,
    pub right: Term,
}

/// The arithmetic operators, by their full names.
#[derive(Debug, Clone, Copy, PartialEq, Eq, Structural)]
pub enum ArithmeticOperator {
    Add,
    Subtract,
    Multiply,
    Divide,
    Power,
    Modulo,
}

/// The operator that a full name denotes.
pub open spec fn op_of(op: ArithmeticOperator) -> ArithOp {
    match op {
        ArithmeticOperator::Add => ArithOp::Add,
        ArithmeticOperator::Subtract => ArithOp::Sub,
        ArithmeticOperator::Multiply => ArithOp::Mul,
        ArithmeticOperator::Divide => ArithOp::Div,
        ArithmeticOperator::Power => ArithOp::Pow,
        ArithmeticOperator::Modulo => ArithOp::Mod,
    }
}

/// The ghost value of a literal of the arithmetic tree.
pub open spec fn view_literal(l: Literal) -> AbsLit {
    match l {
        Literal::FloatLiteral(FloatLiteral(t)) => AbsLit::Float(t@),
        Literal::IntegerLiteral(IntegerLiteral(i)) => AbsLit::Int(i),
        Literal::CharLiteral(CharLiteral(c)) => AbsLit::Char(c),
        Literal::BooleanLiteral(BooleanLiteral(b)) => AbsLit::Bool(b),
        Literal::StringLiteral(StringLiteral(s)) => AbsLit::String(s@),
    }
}

/// The expression that an arithmetic tree denotes.
pub open spec fn view_term(t: Term) -> AbsExpr
    decreases t,
{
    match t {
        Term::Literal(l) => AbsExpr::Lit(view_literal(l)),
        Term::Identifier(Identifier(n)) => AbsExpr::Id(n@),
        Term::ArithmeticOperation(b) => AbsExpr::Arith(
            Box::new(
                AbsArithExpr {
                    left: view_term(b.left),
                    op: op_of(b.op),
                    right: view_term(b.right),
                },
            ),
        ),
    }
}

impl View for Term {
    type V = AbsExpr;

    open spec fn view(&self) -> AbsExpr {
        view_term(*self)
    }
}

/// One unfolding of the arithmetic-tree view at a binary node.
pub proof fn lemma_view_term_arith(b: Box<ArithmeticOperation>)
    ensures
        view_term(Term::ArithmeticOperation(b)) == AbsExpr::Arith(
            Box::new(
                AbsArithExpr {
                    left: view_term(b.left),
                    op: op_of(b.op),
                    right: view_term(b.right),
                },
            ),
        ),
{
}

/// An expression with the grouping parentheses made transparent.
pub open spec fn deparen(e: AbsExpr) -> AbsExpr
    decreases e,
{
    match e {
        AbsExpr::Paren(b) => deparen(*b),
        AbsExpr::Arith(b) => AbsExpr::Arith(
            Box::new(
                AbsArithExpr { left: deparen(b.left), op: b.op, right: deparen(b.right) },
            ),
        ),
        _ => e,
    }
}

/// Whether an expression is built from literals, names, grouping and
/// arithmetic alone, so the arithmetic tree can hold it.
pub open spec fn is_plain_term(e: AbsExpr) -> bool
    decreases e,
{
    match e {
        AbsExpr::Lit(_) => true,
        AbsExpr::Id(_) => true,
        AbsExpr::Paren(b) => is_plain_term(*b),
        AbsExpr::Arith(b) => is_plain_term(b.left) && is_plain_term(b.right),
        _ => false,
    }
}

/// Converts an expression to the arithmetic tree; fails on nodes the tree
/// cannot hold.
fn term_of_expr(e: &crate::ast::Expr) -> (r: Result<Term, EvalError>)
    ensures
        match r {
            Result::Ok(ref t) => is_plain_term(crate::ast::view_expr(*e)) && view_term(*t)
                == deparen(crate::ast::view_expr(*e)),
            Result::Err(ref err) => !is_plain_term(crate::ast::view_expr(*e)) && err@
                == crate::errors::AbsEvalError::BuilderError,
        },
    decreases e,
{
    match e {
        crate::ast::Expr::Lit(l) => {
            let lit = match l {
                crate::ast::Lit::Bool(b) => Literal::BooleanLiteral(BooleanLiteral(*b)),
                crate::ast::Lit::Int(i) => Literal::IntegerLiteral(IntegerLiteral(*i)),
                crate::ast::Lit::Float(t) => Literal::FloatLiteral(FloatLiteral(t.clone())),
                crate::ast::Lit::Char(c) => Literal::CharLiteral(CharLiteral(*c)),
                crate::ast::Lit::String(s) => Literal::StringLiteral(StringLiteral(s.clone())),
            };
            Ok(Term::Literal(lit))
        },
        crate::ast::Expr::Id(n) => Ok(Term::Identifier(Identifier(n.clone()))),
        crate::ast::Expr::Paren(inner) => {
            proof {
                crate::ast::lemma_view_expr_paren(*inner);
            }
            term_of_expr(inner)
        },
        crate::ast::Expr::Arith(a) => {
            proof {
                crate::ast::lemma_view_expr_arith(*a);
            }
            let left = match term_of_expr(&a.left) {
                Ok(t) => t,
                Err(err) => {
                    return Err(err);
                },
            };
            let right = match term_of_expr(&a.right) {
                Ok(t) => t,
                Err(err) => {
                    return Err(err);
                },
            };
            let op = match a.op {
                ArithOp::Add => ArithmeticOperator::Add,
                ArithOp::Sub => ArithmeticOperator::Subtract,
                ArithOp::Mul => ArithmeticOperator::Multiply,
                ArithOp::Div => ArithmeticOperator::Divide,
                ArithOp::Pow => ArithmeticOperator::Power,
                ArithOp::Mod => ArithmeticOperator::Modulo,
            };
            let b = Box::new(ArithmeticOperation { left, op, right });
            proof {
                lemma_view_term_arith(b);
            }
            Ok(Term::ArithmeticOperation(b))
        },
        _ => Err(EvalError::BuilderError),
    }
}

/// Matches source text against the arithmetic production alone and builds
/// the arithmetic tree: the text must be one whole mathematical expression
/// over literals and names.
pub fn parse(contents: &str) -> (r: Result<Term, CacauError>)
    ensures
        match r {
            Result::Ok(ref t) => ({
                let m = grammar_whole(contents@);
                m is Some && is_plain_term(m->Some_0) && view_term(*t) == deparen(m->Some_0)
            }),
            Result::Err(CacauError::Syntax(_)) => grammar_whole(contents@) is None,
            Result::Err(CacauError::Eval(ref e)) => grammar_whole(contents@) is Some
                && !is_plain_term(grammar_whole(contents@)->Some_0) && e@
                == crate::errors::AbsEvalError::BuilderError,
        },
{
    let src = str_chars(contents);
    let n = src.len();
    let i = super::x_ws(&src, 0);
    match super::x_math(&src, i) {
        Some((j, e)) => {
            let k = super::x_ws(&src, j);
            if k == n {
                match term_of_expr(&e) {
                    Ok(t) => Ok(t),
                    Err(err) => Err(CacauError::Eval(err)),
                }
            } else {
                Err(CacauError::Syntax(SyntaxError { location: k }))
            }
        },
        None => Err(CacauError::Syntax(SyntaxError { location: i })),
    }
}

/// What matching the whole text against the arithmetic production denotes.
pub open spec fn grammar_whole(s: Seq<char>) -> Option<AbsExpr> {
    crate::grammar::p_whole_math(s)
}

} // verus!
