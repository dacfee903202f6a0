//! The typed, precedence-resolved abstract syntax tree, and its mathematical
//! mirror used by contracts.
//!
//! The executable types mirror the surface grammar: a program is a sequence
//! of statements, and expressions form an acyclic tree owned top-down. The
//! `Abs*` types are the ghost view of the same shapes: text becomes
//! `Seq<char>` and vectors become `Seq`, so specifications can speak of
//! syntax trees by value.
//!
//! A float literal is kept as its source text: the verified core carries
//! floating-point syntax through the tree but gives it no arithmetic
//! semantics (see the evaluator).
use vstd::prelude::*;

verus! {

/// An ordered sequence of top-level statements; immutable after construction.
#[derive(Debug, PartialEq)]
pub struct CacauProgram {
    pub items: Vec<Statement>,
}

/// One top-level item. Only expression statements carry semantics today;
/// declarations are recognized syntactically and evaluate to `NotImplemented`.
#[derive(Debug, PartialEq)]
pub enum Statement {
    Fn(Function),
    Struct(),
    Enum(),
    Expr(Expr),
}

/// A function declaration: name, parameters, return type and body.
/// Semantics are unimplemented; the node is kept so the grammar's shape is
/// preserved for future extension.
#[derive(Debug, PartialEq)]
pub struct Function {
    pub public: bool,
    pub name: String,
    pub params: Vec<FunctionArgument>,
    pub output: String,
    pub body: Expr,
}

/// A struct declaration: name only, semantics unimplemented.
#[derive(Debug, PartialEq)]
pub struct Struct {
    pub name: String,
}

/// An enum declaration: name only, semantics unimplemented.
#[derive(Debug, PartialEq)]
pub struct Enum {
    pub name: String,
}

/// `let name (: annotation)? = expr;` — introduces or overwrites a binding.
#[derive(Debug, PartialEq)]
pub struct VariableDecl {
    pub name: String,
    pub type_annotation: Option<String>,
    pub expr: Expr,
}

/// An expression node. Every node evaluates to exactly one value or error.
#[derive(Debug, PartialEq)]
pub enum Expr {
    Lit(Lit),
    Id(String),
    VarDecl(Box<VariableDecl>),
    FnCall(Box<FnCall>),
    Arith(Box<ArithExpr>),
    Cmp(Box<CmpExpr>),
    Logic(Box<LogicExpr>),
    Paren(Box<Expr>),
    Unary(Box<Unary>),
    Assign(Box<Assign>),
}

/// `destination op= value;` — plain `=` when `operator` is `None`,
/// a compound arithmetic assignment otherwise.
#[derive(Debug, PartialEq)]
pub struct Assign {
    pub destination: Expr,
    pub operator: Option<ArithOp>,
    pub value: Expr,
}

/// A literal. `Float` keeps the literal's source text; the verified core
/// assigns it no numeric value.
#[derive(Debug, PartialEq)]
pub enum Lit {
    Bool(bool),
    Int(i64),
    Float(String),
    Char(char),
    String(String),
}

/// A prefix operator applied to the immediately following term.
#[derive(Debug, PartialEq)]
pub enum Unary {
    Not(Expr),
    Minus(Expr),
}

/// A single parsed arithmetic term, as produced by the term-level parser.
#[derive(Debug, PartialEq)]
pub struct Term(pub Expr);

/// A binary arithmetic operation.
#[derive(Debug, PartialEq)]
pub struct ArithExpr {
    pub left: Expr,
    pub op: ArithOp,
    pub right: Expr,
}

/// A binary comparison.
#[derive(Debug, PartialEq)]
pub struct CmpExpr {
    pub left: Expr,
    pub op: CmpOp,
    pub right: Expr,
}

/// A binary boolean connective; both sides evaluate eagerly.
#[derive(Debug, PartialEq)]
pub struct LogicExpr {
    pub left: Expr,
    pub op: LogicOp,
    pub right: Expr,
}

/// Arithmetic operators, lowest precedence first: `{Add, Sub}` <
/// `{Mul, Div, Mod}` < `{Pow}`; `Pow` is right-associative, the rest left.
#[derive(Debug, Clone, Copy, PartialEq, Eq, Structural)]
pub enum ArithOp {
    Add,
    Sub,
    Mul,
    Div,
    Pow,
    Mod,
}

/// Boolean connectives.
#[derive(Debug, Clone, Copy, PartialEq, Eq, Structural)]
pub enum LogicOp {
    Or,
    And,
}

/// Comparison operators.
#[derive(Debug, Clone, Copy, PartialEq, Eq, Structural)]
pub enum CmpOp {
    EQ,
    NE,
    LT,
    LE,
    GT,
    GE,
}

/// A call: the callee expression and the ordered argument list.
#[derive(Debug, PartialEq)]
pub struct FnCall {
    pub callee: Expr,
    pub params: Vec<Expr>,
}

/// A declared parameter of a function declaration: `name: type`.
#[derive(Debug, PartialEq)]
pub struct FunctionArgument {
    pub name: String,
    pub type_: String,
}

// ---------------------------------------------------------------------------
// Ghost mirrors
// ---------------------------------------------------------------------------
/// Ghost mirror of `CacauProgram`.
pub struct AbsProgram {
    pub items: Seq<AbsStatement>,
}

/// Ghost mirror of `Statement`.
pub enum AbsStatement {
    Fn(AbsFunction),
    Struct(),
    Enum(),
    Expr(AbsExpr),
}

/// Ghost mirror of `Function`.
pub struct AbsFunction {
    pub public: bool,
    pub name: Seq<char>,
    pub params: Seq<AbsFunctionArgument>,
    pub output: Seq<char>,
    pub body: AbsExpr,
}

/// Ghost mirror of `VariableDecl`.
pub struct AbsVariableDecl {
    pub name: Seq<char>,
    pub type_annotation: Option<Seq<char>>,
    pub expr: AbsExpr,
}

/// Ghost mirror of `Expr`.
pub enum AbsExpr {
    Lit(AbsLit),
    Id(Seq<char>),
    VarDecl(Box<AbsVariableDecl>),
    FnCall(Box<AbsFnCall>),
    Arith(Box<AbsArithExpr>),
    Cmp(Box<AbsCmpExpr>),
    Logic(Box<AbsLogicExpr>),
    Paren(Box<AbsExpr>),
    Unary(Box<AbsUnary>),
    Assign(Box<AbsAssign>),
}

/// Ghost mirror of `Assign`.
pub struct AbsAssign {
    pub destination: AbsExpr,
    pub operator: Option<ArithOp>,
    pub value: AbsExpr,
}

/// Ghost mirror of `Lit`.
pub enum AbsLit {
    Bool(bool),
    Int(i64),
    Float(Seq<char>),
    Char(char),
    String(Seq<char>),
}

/// Ghost mirror of `Unary`.
pub enum AbsUnary {
    Not(AbsExpr),
    Minus(AbsExpr),
}

/// Ghost mirror of `ArithExpr`.
pub struct AbsArithExpr {
    pub left: AbsExpr,
    pub op: ArithOp,
    pub right: AbsExpr,
}

/// Ghost mirror of `CmpExpr`.
pub struct AbsCmpExpr {
    pub left: AbsExpr,
    pub op: CmpOp,
    pub right: AbsExpr,
}

/// Ghost mirror of `LogicExpr`.
pub struct AbsLogicExpr {
    pub left: AbsExpr,
    pub op: LogicOp,
    pub right: AbsExpr,
}

/// Ghost mirror of `FnCall`.
pub struct AbsFnCall {
    pub callee: AbsExpr,
    pub params: Seq<AbsExpr>,
}

/// Ghost mirror of `FunctionArgument`.
pub struct AbsFunctionArgument {
    pub name: Seq<char>,
    pub type_: Seq<char>,
}

// ---------------------------------------------------------------------------
// Views from executable syntax to the ghost mirror
// ---------------------------------------------------------------------------
/// The ghost value of an optional annotation.
pub open spec fn view_opt_text(o: Option<String>) -> Option<Seq<char>> {
    match o {
        Option::Some(s) => Option::Some(s@),
        Option::None => Option::None,
    }
}

/// The ghost value of a literal.
pub open spec fn view_lit(l: Lit) -> AbsLit {
    match l {
        Lit::Bool(b) => AbsLit::Bool(b),
        Lit::Int(i) => AbsLit::Int(i),
        Lit::Float(t) => AbsLit::Float(t@),
        Lit::Char(c) => AbsLit::Char(c),
        Lit::String(s) => AbsLit::String(s@),
    }
}

/// The ghost value of an expression tree.
pub open spec fn view_expr(e: Expr) -> AbsExpr
    decreases e,
{
    match e {
        Expr::Lit(l) => AbsExpr::Lit(view_lit(l)),
        Expr::Id(n) => AbsExpr::Id(n@),
        Expr::VarDecl(d) => AbsExpr::VarDecl(Box::new(view_vardecl(*d))),
        Expr::FnCall(c) => AbsExpr::FnCall(Box::new(view_fncall(*c))),
        Expr::Arith(a) => AbsExpr::Arith(Box::new(view_arith(*a))),
        Expr::Cmp(c) => AbsExpr::Cmp(Box::new(view_cmp(*c))),
        Expr::Logic(l) => AbsExpr::Logic(Box::new(view_logic(*l))),
        Expr::Paren(inner) => AbsExpr::Paren(Box::new(view_expr(*inner))),
        Expr::Unary(u) => AbsExpr::Unary(Box::new(view_unary(*u))),
        Expr::Assign(a) => AbsExpr::Assign(Box::new(view_assign(*a))),
    }
}

/// The ghost value of a `let` node.
pub open spec fn view_vardecl(d: VariableDecl) -> AbsVariableDecl
    decreases d,
{
    AbsVariableDecl {
        name: d.name@,
        type_annotation: view_opt_text(d.type_annotation),
        expr: view_expr(d.expr),
    }
}

/// The ghost value of a call node.
pub open spec fn view_fncall(c: FnCall) -> AbsFnCall
    decreases c,
{
    AbsFnCall { callee: view_expr(c.callee), params: view_exprs(c.params@) }
}

/// The ghost value of an arithmetic node.
pub open spec fn view_arith(a: ArithExpr) -> AbsArithExpr
    decreases a,
{
    AbsArithExpr { left: view_expr(a.left), op: a.op, right: view_expr(a.right) }
}

/// The ghost value of a comparison node.
pub open spec fn view_cmp(c: CmpExpr) -> AbsCmpExpr
    decreases c,
{
    AbsCmpExpr { left: view_expr(c.left), op: c.op, right: view_expr(c.right) }
}

/// The ghost value of a boolean-connective node.
pub open spec fn view_logic(l: LogicExpr) -> AbsLogicExpr
    decreases l,
{
    AbsLogicExpr { left: view_expr(l.left), op: l.op, right: view_expr(l.right) }
}

/// The ghost value of a prefix-operator node.
pub open spec fn view_unary(u: Unary) -> AbsUnary
    decreases u,
{
    match u {
        Unary::Not(inner) => AbsUnary::Not(view_expr(inner)),
        Unary::Minus(inner) => AbsUnary::Minus(view_expr(inner)),
    }
}

/// The ghost value of an assignment node.
pub open spec fn view_assign(a: Assign) -> AbsAssign
    decreases a,
{
    AbsAssign {
        destination: view_expr(a.destination),
        operator: a.operator,
        value: view_expr(a.value),
    }
}

/// The ghost value of a sequence of expressions, element by element.
pub open spec fn view_exprs(s: Seq<Expr>) -> Seq<AbsExpr>
    decreases s,
{
    if s.len() == 0 {
        Seq::empty()
    } else {
        view_exprs(s.drop_last()).push(view_expr(s.last()))
    }
}

/// The ghost value of a statement.
pub open spec fn view_statement(s: Statement) -> AbsStatement {
    match s {
        Statement::Fn(f) => AbsStatement::Fn(
            AbsFunction {
                public: f.public,
                name: f.name@,
                params: view_args(f.params@),
                output: f.output@,
                body: view_expr(f.body),
            },
        ),
        Statement::Struct() => AbsStatement::Struct(),
        Statement::Enum() => AbsStatement::Enum(),
        Statement::Expr(e) => AbsStatement::Expr(view_expr(e)),
    }
}

/// The ghost value of a declared-parameter list.
pub open spec fn view_args(s: Seq<FunctionArgument>) -> Seq<AbsFunctionArgument>
    decreases s,
{
    if s.len() == 0 {
        Seq::empty()
    } else {
        view_args(s.drop_last()).push(
            AbsFunctionArgument { name: s.last().name@, type_: s.last().type_@ },
        )
    }
}

/// The ghost value of a statement sequence.
pub open spec fn view_statements(s: Seq<Statement>) -> Seq<AbsStatement>
    decreases s,
{
    if s.len() == 0 {
        Seq::empty()
    } else {
        view_statements(s.drop_last()).push(view_statement(s.last()))
    }
}

impl View for Expr {
    type V = AbsExpr;

    open spec fn view(&self) -> AbsExpr {
        view_expr(*self)
    }
}

impl View for Lit {
    type V = AbsLit;

    open spec fn view(&self) -> AbsLit {
        view_lit(*self)
    }
}

impl View for Statement {
    type V = AbsStatement;

    open spec fn view(&self) -> AbsStatement {
        view_statement(*self)
    }
}

impl View for CacauProgram {
    type V = AbsProgram;

    open spec fn view(&self) -> AbsProgram {
        AbsProgram { items: view_statements(self.items@) }
    }
}

impl View for Term {
    type V = AbsExpr;

    open spec fn view(&self) -> AbsExpr {
        view_expr(self.0)
    }
}

/// One unfolding of the view at a `let` node.
pub broadcast proof fn lemma_view_expr_vardecl(d: Box<VariableDecl>)
    ensures
        #[trigger] view_expr(Expr::VarDecl(d)) == AbsExpr::VarDecl(Box::new(view_vardecl(*d))),
        view_vardecl(*d) == (AbsVariableDecl {
            name: d.name@,
            type_annotation: view_opt_text(d.type_annotation),
            expr: view_expr(d.expr),
        }),
{
}

/// One unfolding of the view at a call node.
pub broadcast proof fn lemma_view_expr_fncall(c: Box<FnCall>)
    ensures
        #[trigger] view_expr(Expr::FnCall(c)) == AbsExpr::FnCall(Box::new(view_fncall(*c))),
        view_fncall(*c) == (AbsFnCall {
            callee: view_expr(c.callee),
            params: view_exprs(c.params@),
        }),
{
}

/// One unfolding of the view at an arithmetic node.
pub broadcast proof fn lemma_view_expr_arith(a: Box<ArithExpr>)
    ensures
        #[trigger] view_expr(Expr::Arith(a)) == AbsExpr::Arith(Box::new(view_arith(*a))),
        view_arith(*a) == (AbsArithExpr {
            left: view_expr(a.left),
            op: a.op,
            right: view_expr(a.right),
        }),
{
}

/// One unfolding of the view at a comparison node.
pub broadcast proof fn lemma_view_expr_cmp(c: Box<CmpExpr>)
    ensures
        #[trigger] view_expr(Expr::Cmp(c)) == AbsExpr::Cmp(Box::new(view_cmp(*c))),
        view_cmp(*c) == (AbsCmpExpr {
            left: view_expr(c.left),
            op: c.op,
            right: view_expr(c.right),
        }),
{
}

/// One unfolding of the view at a boolean-connective node.
pub broadcast proof fn lemma_view_expr_logic(l: Box<LogicExpr>)
    ensures
        #[trigger] view_expr(Expr::Logic(l)) == AbsExpr::Logic(Box::new(view_logic(*l))),
        view_logic(*l) == (AbsLogicExpr {
            left: view_expr(l.left),
            op: l.op,
            right: view_expr(l.right),
        }),
{
}

/// One unfolding of the view at a prefix-operator node.
pub broadcast proof fn lemma_view_expr_unary(u: Box<Unary>)
    ensures
        #[trigger] view_expr(Expr::Unary(u)) == AbsExpr::Unary(Box::new(view_unary(*u))),
        view_unary(*u) == (match *u {
            Unary::Not(inner) => AbsUnary::Not(view_expr(inner)),
            Unary::Minus(inner) => AbsUnary::Minus(view_expr(inner)),
        }),
{
}

/// One unfolding of the view at an assignment node.
pub broadcast proof fn lemma_view_expr_assign(a: Box<Assign>)
    ensures
        #[trigger] view_expr(Expr::Assign(a)) == AbsExpr::Assign(Box::new(view_assign(*a))),
        view_assign(*a) == (AbsAssign {
            destination: view_expr(a.destination),
            operator: a.operator,
            value: view_expr(a.value),
        }),
{
}

/// One unfolding of the view at a grouping node.
pub broadcast proof fn lemma_view_expr_paren(inner: Box<Expr>)
    ensures
        #[trigger] view_expr(Expr::Paren(inner)) == AbsExpr::Paren(Box::new(view_expr(*inner))),
{
}

/// The unfoldings of the expression view, one for each recursive node.
pub broadcast group group_view_axioms {
    lemma_view_expr_vardecl,
    lemma_view_expr_fncall,
    lemma_view_expr_arith,
    lemma_view_expr_cmp,
    lemma_view_expr_logic,
    lemma_view_expr_unary,
    lemma_view_expr_assign,
    lemma_view_expr_paren,
}

/// Element-wise reading of `view_exprs`: the mirrored sequence has the same
/// length, and mirrors each element in place.
pub proof fn lemma_view_exprs_elts(s: Seq<Expr>)
    ensures
        view_exprs(s).len() == s.len(),
        forall|i: int| 0 <= i < s.len() ==> view_exprs(s)[i] == view_expr(s[i]),
    decreases s,
{
    if s.len() > 0 {
        lemma_view_exprs_elts(s.drop_last());
        assert forall|i: int| 0 <= i < s.len() implies view_exprs(s)[i] == view_expr(s[i]) by {
            if i < s.len() - 1 {
                assert(s.drop_last()[i] == s[i]);
            }
        }
    }
}

/// Element-wise reading of `view_statements`.
pub proof fn lemma_view_statements_elts(s: Seq<Statement>)
    ensures
        view_statements(s).len() == s.len(),
        forall|i: int| 0 <= i < s.len() ==> view_statements(s)[i] == view_statement(s[i]),
    decreases s,
{
    if s.len() > 0 {
        lemma_view_statements_elts(s.drop_last());
        assert forall|i: int| 0 <= i < s.len() implies view_statements(s)[i] == view_statement(
            s[i],
        ) by {
            if i < s.len() - 1 {
                assert(s.drop_last()[i] == s[i]);
            }
        }
    }
}

} // verus!
