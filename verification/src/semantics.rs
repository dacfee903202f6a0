//! The mathematical semantics of the language: a structurally recursive
//! interpretation of the ghost syntax tree over a ghost state. The
//! executable evaluator is verified against these definitions.
//!
//! Integer arithmetic wraps at the 64-bit boundary, as the native operators
//! do in an optimized build; division and modulo are truncating and report
//! `DivisionByZero` on a zero divisor. Float syntax carries no semantics:
//! every float literal or float cast reports `NotImplemented`.
use vstd::prelude::*;

use crate::ast::AbsExpr;
use crate::ast::AbsLit;
use crate::ast::AbsProgram;
use crate::ast::AbsStatement;
use crate::ast::ArithOp;
use crate::ast::CmpOp;
use crate::ast::LogicOp;
use crate::errors::AbsEvalError;
use crate::errors::OpKind;
use crate::errors::ValueType;
use crate::mem::abs_value_type;
use crate::mem::AbsValue;
use crate::text::bool_text;
use crate::text::int_to_dec_str;
use crate::text::parse_bool_spec;
use crate::text::parse_i64_spec;
use vstd::wrapping::i64_specs;

verus! {

/// The state of one evaluation run: the binding table and the output
/// written so far.
#[verifier::ext_equal]
pub struct EvalState {
    pub env: Map<Seq<char>, AbsValue>,
    pub out: Seq<char>,
}

/// The outcome of evaluating one node: the state afterwards and either the
/// node's value or the error that stopped evaluation.
#[verifier::ext_equal]
pub struct EvalStep {
    pub state: EvalState,
    pub result: Result<AbsValue, AbsEvalError>,
}

// ---------------------------------------------------------------------------
// Integer arithmetic, wrapping at the 64-bit boundary
// ---------------------------------------------------------------------------
/// Truncating division of 64-bit integers; the one overflowing quotient
/// wraps back to the minimum value.
pub open spec fn i64_div(a: i64, b: i64) -> i64
    recommends
        b != 0,
{
    if a == i64::MIN && b == -1 {
        i64::MIN
    } else {
        let x = a as int;
        let d = b as int;
        let q = if x == 0 {
            0int
        } else if x > 0 && d > 0 {
            x / d
        } else if x < 0 && d < 0 {
            (x * -1) / (d * -1)
        } else if x < 0 {
            ((x * -1) / d) * -1
        } else {
            (x / (d * -1)) * -1
        };
        q as i64
    }
}

/// Truncating remainder of 64-bit integers: the remainder has the sign of
/// the dividend.
pub open spec fn i64_rem(a: i64, b: i64) -> i64
    recommends
        b != 0,
{
    if a == i64::MIN && b == -1 {
        0
    } else {
        let x = a as int;
        let d = b as int;
        let r = if x == 0 {
            0int
        } else if x > 0 && d > 0 {
            x % d
        } else if x < 0 && d < 0 {
            ((x * -1) % (d * -1)) * -1
        } else if x < 0 {
            ((x * -1) % d) * -1
        } else {
            x % (d * -1)
        };
        r as i64
    }
}

/// Wrapping negation; the minimum value is its own negation.
pub open spec fn i64_neg(a: i64) -> i64 {
    if a == i64::MIN {
        i64::MIN
    } else {
        (-a) as i64
    }
}

/// Wrapping exponentiation by repeated multiplication.
pub open spec fn i64_pow(base: i64, e: nat) -> i64
    decreases e,
{
    if e == 0 {
        1
    } else {
        i64_specs::wrapping_mul(base, i64_pow(base, (e - 1) as nat))
    }
}

/// Text repeated a number of times; zero or fewer repetitions give empty
/// text.
pub open spec fn repeat_text(s: Seq<char>, n: int) -> Seq<char>
    decreases n,
{
    if n <= 0 {
        Seq::empty()
    } else {
        repeat_text(s, n - 1) + s
    }
}

/// Lexicographic order on text, by character code points.
pub open spec fn text_lt(a: Seq<char>, b: Seq<char>) -> bool
    decreases a.len(),
{
    if b.len() == 0 {
        false
    } else if a.len() == 0 {
        true
    } else if a[0] != b[0] {
        a[0] < b[0]
    } else {
        text_lt(a.skip(1), b.skip(1))
    }
}

// ---------------------------------------------------------------------------
// The operator tables
// ---------------------------------------------------------------------------
/// The error for an operand pair the arithmetic table does not cover.
pub open spec fn arith_unsupported(op: ArithOp, l: AbsValue, r: AbsValue) -> Result<
    AbsValue,
    AbsEvalError,
> {
    Result::Err(
        AbsEvalError::UnsupportedOperation(OpKind::Arith(op), abs_value_type(l), abs_value_type(r)),
    )
}

/// The arithmetic coercion table. Integers use wrapping native operations;
/// `Div` and `Mod` report `DivisionByZero` on a zero divisor; `Pow` demands
/// a non-negative exponent within 32 bits; text concatenates with `Add` and
/// repeats with `Mul` by an integer.
pub open spec fn apply_arith(op: ArithOp, l: AbsValue, r: AbsValue) -> Result<
    AbsValue,
    AbsEvalError,
> {
    match (l, r) {
        (AbsValue::Int(a), AbsValue::Int(b)) => match op {
            ArithOp::Add => Result::Ok(AbsValue::Int(i64_specs::wrapping_add(a, b))),
            ArithOp::Sub => Result::Ok(AbsValue::Int(i64_specs::wrapping_sub(a, b))),
            ArithOp::Mul => Result::Ok(AbsValue::Int(i64_specs::wrapping_mul(a, b))),
            ArithOp::Div => if b == 0 {
                Result::Err(AbsEvalError::DivisionByZero)
            } else {
                Result::Ok(AbsValue::Int(i64_div(a, b)))
            },
            ArithOp::Mod => if b == 0 {
                Result::Err(AbsEvalError::DivisionByZero)
            } else {
                Result::Ok(AbsValue::Int(i64_rem(a, b)))
            },
            ArithOp::Pow => if 0 <= b <= u32::MAX {
                Result::Ok(AbsValue::Int(i64_pow(a, b as nat)))
            } else {
                arith_unsupported(op, l, r)
            },
        },
        (AbsValue::Str(a), AbsValue::Str(b)) => match op {
            ArithOp::Add => Result::Ok(AbsValue::Str(a + b)),
            _ => arith_unsupported(op, l, r),
        },
        (AbsValue::Str(a), AbsValue::Int(b)) => match op {
            ArithOp::Mul => Result::Ok(AbsValue::Str(repeat_text(a, b as int))),
            _ => arith_unsupported(op, l, r),
        },
        _ => arith_unsupported(op, l, r),
    }
}

/// Whether a comparison operator accepts the outcome of a three-way
/// comparison: `lt` says the left side is strictly smaller, `eq` that the
/// sides are equal.
pub open spec fn cmp_answer(op: CmpOp, lt: bool, eq: bool) -> bool {
    match op {
        CmpOp::EQ => eq,
        CmpOp::NE => !eq,
        CmpOp::LT => lt,
        CmpOp::LE => lt || eq,
        CmpOp::GT => !lt && !eq,
        CmpOp::GE => !lt,
    }
}

/// The comparison table: same-typed pairs of integers, booleans, chars and
/// text, each under its natural order. Other pairs are unsupported.
pub open spec fn apply_cmp(op: CmpOp, l: AbsValue, r: AbsValue) -> Result<
    AbsValue,
    AbsEvalError,
> {
    match (l, r) {
        (AbsValue::Int(a), AbsValue::Int(b)) => Result::Ok(
            AbsValue::Bool(cmp_answer(op, a < b, a == b)),
        ),
        (AbsValue::Bool(a), AbsValue::Bool(b)) => Result::Ok(
            AbsValue::Bool(cmp_answer(op, !a && b, a == b)),
        ),
        (AbsValue::Char(a), AbsValue::Char(b)) => Result::Ok(
            AbsValue::Bool(cmp_answer(op, a < b, a == b)),
        ),
        (AbsValue::Str(a), AbsValue::Str(b)) => Result::Ok(
            AbsValue::Bool(cmp_answer(op, text_lt(a, b), a == b)),
        ),
        _ => Result::Err(
            AbsEvalError::UnsupportedOperation(
                OpKind::Cmp(op),
                abs_value_type(l),
                abs_value_type(r),
            ),
        ),
    }
}

/// The boolean connectives: defined only for boolean pairs, both sides
/// already evaluated (no short-circuit).
pub open spec fn apply_logic(op: LogicOp, l: AbsValue, r: AbsValue) -> Result<
    AbsValue,
    AbsEvalError,
> {
    match (l, r) {
        (AbsValue::Bool(a), AbsValue::Bool(b)) => match op {
            LogicOp::Or => Result::Ok(AbsValue::Bool(a || b)),
            LogicOp::And => Result::Ok(AbsValue::Bool(a && b)),
        },
        _ => Result::Err(
            AbsEvalError::UnsupportedOperation(
                OpKind::Logic(op),
                abs_value_type(l),
                abs_value_type(r),
            ),
        ),
    }
}

/// Boolean negation, defined only for booleans.
pub open spec fn apply_not(v: AbsValue) -> Result<AbsValue, AbsEvalError> {
    match v {
        AbsValue::Bool(b) => Result::Ok(AbsValue::Bool(!b)),
        _ => Result::Err(
            AbsEvalError::UnsupportedOperation(OpKind::Not, abs_value_type(v), abs_value_type(v)),
        ),
    }
}

/// Numeric negation, defined only for integers (floats have no semantics
/// here).
pub open spec fn apply_minus(v: AbsValue) -> Result<AbsValue, AbsEvalError> {
    match v {
        AbsValue::Int(a) => Result::Ok(AbsValue::Int(i64_neg(a))),
        _ => Result::Err(
            AbsEvalError::UnsupportedOperation(OpKind::Minus, abs_value_type(v), abs_value_type(v)),
        ),
    }
}

// ---------------------------------------------------------------------------
// Formatting and casts
// ---------------------------------------------------------------------------
/// What `print` writes for a value: text verbatim, integers in decimal,
/// booleans as `true`/`false`, a char as itself. `Void` is not printable.
pub open spec fn format_value(v: AbsValue) -> Result<Seq<char>, AbsEvalError> {
    match v {
        AbsValue::Str(s) => Result::Ok(s),
        AbsValue::Int(i) => Result::Ok(int_to_dec_str(i as int)),
        AbsValue::Bool(b) => Result::Ok(bool_text(b)),
        AbsValue::Char(c) => Result::Ok(seq![c]),
        AbsValue::Void => Result::Err(
            AbsEvalError::UnsupportedOperation(OpKind::Print, ValueType::Void, ValueType::Void),
        ),
    }
}

/// The `string` cast: booleans, integers and chars format as `print` would
/// show them; everything else is not covered by the conversion table.
pub open spec fn cast_string(v: AbsValue) -> Result<AbsValue, AbsEvalError> {
    match v {
        AbsValue::Bool(b) => Result::Ok(AbsValue::Str(bool_text(b))),
        AbsValue::Int(i) => Result::Ok(AbsValue::Str(int_to_dec_str(i as int))),
        AbsValue::Char(c) => Result::Ok(AbsValue::Str(seq![c])),
        _ => Result::Err(AbsEvalError::UnsupportedCast),
    }
}

/// The `int` cast: text must parse as a decimal 64-bit integer, else the
/// cast fails; other source types are not covered. (A float source would be
/// covered by the table, but floats have no semantics here.)
pub open spec fn cast_int(v: AbsValue) -> Result<AbsValue, AbsEvalError> {
    match v {
        AbsValue::Str(s) => match parse_i64_spec(s) {
            Option::Some(i) => Result::Ok(AbsValue::Int(i)),
            Option::None => Result::Err(AbsEvalError::CastFailed),
        },
        _ => Result::Err(AbsEvalError::UnsupportedCast),
    }
}

/// The `bool` cast: an integer is true when nonzero; text must read
/// exactly `true` or `false`.
pub open spec fn cast_bool(v: AbsValue) -> Result<AbsValue, AbsEvalError> {
    match v {
        AbsValue::Int(i) => Result::Ok(AbsValue::Bool(i != 0)),
        AbsValue::Str(s) => match parse_bool_spec(s) {
            Option::Some(b) => Result::Ok(AbsValue::Bool(b)),
            Option::None => Result::Err(AbsEvalError::CastFailed),
        },
        _ => Result::Err(AbsEvalError::UnsupportedCast),
    }
}

/// The `float` cast: integer and text sources are covered by the
/// conversion table, but a float value cannot be produced by the verified
/// core, so they report `NotImplemented`; other sources are not covered.
pub open spec fn cast_float(v: AbsValue) -> Result<AbsValue, AbsEvalError> {
    match v {
        AbsValue::Int(_) => Result::Err(AbsEvalError::NotImplemented),
        AbsValue::Str(_) => Result::Err(AbsEvalError::NotImplemented),
        _ => Result::Err(AbsEvalError::UnsupportedCast),
    }
}

// ---------------------------------------------------------------------------
// Builtin dispatch
// ---------------------------------------------------------------------------
/// Whether `name` is a builtin function; every builtin takes one argument.
pub open spec fn is_builtin_name(name: Seq<char>) -> bool {
    name == "print"@ || name == "println"@ || name == "assert"@ || name == "string"@ || name
        == "float"@ || name == "int"@ || name == "bool"@
}

/// The seven builtin names are pairwise distinct.
pub proof fn lemma_builtin_name_lits()
    ensures
        "print"@ != "println"@,
        "print"@ != "assert"@,
        "print"@ != "string"@,
        "print"@ != "float"@,
        "print"@ != "int"@,
        "print"@ != "bool"@,
        "println"@ != "assert"@,
        "println"@ != "string"@,
        "println"@ != "float"@,
        "println"@ != "int"@,
        "println"@ != "bool"@,
        "assert"@ != "string"@,
        "assert"@ != "float"@,
        "assert"@ != "int"@,
        "assert"@ != "bool"@,
        "string"@ != "float"@,
        "string"@ != "int"@,
        "string"@ != "bool"@,
        "float"@ != "int"@,
        "float"@ != "bool"@,
        "int"@ != "bool"@,
{
    reveal_strlit("print");
    reveal_strlit("println");
    reveal_strlit("assert");
    reveal_strlit("string");
    reveal_strlit("float");
    reveal_strlit("int");
    reveal_strlit("bool");
    assert("print"@.len() == 5);
    assert("println"@.len() == 7);
    assert("assert"@.len() == 6);
    assert("string"@.len() == 6);
    assert("float"@.len() == 5);
    assert("int"@.len() == 3);
    assert("bool"@.len() == 4);
    assert("print"@[0] == 'p' && "float"@[0] == 'f');
    assert("assert"@[0] == 'a' && "string"@[0] == 's');
}

/// One builtin applied to its already-evaluated argument. `assert` on a
/// non-boolean value yields `Void`, preserving the reference behaviour.
pub open spec fn apply_builtin(name: Seq<char>, v: AbsValue, st: EvalState) -> EvalStep
    recommends
        is_builtin_name(name),
{
    if name == "print"@ {
        match format_value(v) {
            Result::Ok(t) => EvalStep {
                state: EvalState { env: st.env, out: st.out + t },
                result: Result::Ok(AbsValue::Void),
            },
            Result::Err(e) => EvalStep { state: st, result: Result::Err(e) },
        }
    } else if name == "println"@ {
        match format_value(v) {
            Result::Ok(t) => EvalStep {
                state: EvalState { env: st.env, out: st.out + t + seq!['\n'] },
                result: Result::Ok(AbsValue::Void),
            },
            Result::Err(e) => EvalStep { state: st, result: Result::Err(e) },
        }
    } else if name == "assert"@ {
        match v {
            AbsValue::Bool(b) => if b {
                EvalStep { state: st, result: Result::Ok(AbsValue::Void) }
            } else {
                EvalStep { state: st, result: Result::Err(AbsEvalError::AssertionFailed) }
            },
            _ => EvalStep { state: st, result: Result::Ok(AbsValue::Void) },
        }
    } else if name == "string"@ {
        EvalStep { state: st, result: cast_string(v) }
    } else if name == "float"@ {
        EvalStep { state: st, result: cast_float(v) }
    } else if name == "int"@ {
        EvalStep { state: st, result: cast_int(v) }
    } else {
        EvalStep { state: st, result: cast_bool(v) }
    }
}

// ---------------------------------------------------------------------------
// The interpreter
// ---------------------------------------------------------------------------
/// Evaluates one expression: exactly one value or error, with the state
/// threaded left to right, depth first.
pub open spec fn eval_expr_s(e: AbsExpr, st: EvalState) -> EvalStep
    decreases e,
{
    match e {
        AbsExpr::Lit(l) => match l {
            AbsLit::Bool(b) => EvalStep { state: st, result: Result::Ok(AbsValue::Bool(b)) },
            AbsLit::Int(i) => EvalStep { state: st, result: Result::Ok(AbsValue::Int(i)) },
            AbsLit::Float(_) => EvalStep {
                state: st,
                result: Result::Err(AbsEvalError::NotImplemented),
            },
            AbsLit::Char(c) => EvalStep { state: st, result: Result::Ok(AbsValue::Char(c)) },
            AbsLit::String(s) => EvalStep { state: st, result: Result::Ok(AbsValue::Str(s)) },
        },
        AbsExpr::Id(name) => if st.env.contains_key(name) {
            EvalStep { state: st, result: Result::Ok(st.env[name]) }
        } else {
            EvalStep { state: st, result: Result::Err(AbsEvalError::UndefinedIdentifier(name)) }
        },
        AbsExpr::VarDecl(d) => {
            let s1 = eval_expr_s(d.expr, st);
            match s1.result {
                Result::Ok(v) => EvalStep {
                    state: EvalState { env: s1.state.env.insert(d.name, v), out: s1.state.out },
                    result: Result::Ok(AbsValue::Void),
                },
                Result::Err(e) => s1,
            }
        },
        AbsExpr::FnCall(c) => match c.callee {
            AbsExpr::Id(name) => if is_builtin_name(name) && c.params.len() == 1 {
                let s1 = eval_expr_s(c.params[0], st);
                match s1.result {
                    Result::Ok(v) => apply_builtin(name, v, s1.state),
                    Result::Err(_) => s1,
                }
            } else {
                EvalStep {
                    state: st,
                    result: Result::Err(AbsEvalError::UnknownFunction(name, c.params.len())),
                }
            },
            // a callee that is not a plain name matches no builtin
            _ => EvalStep {
                state: st,
                result: Result::Err(AbsEvalError::UnknownFunction(Seq::empty(), c.params.len())),
            },
        },
        AbsExpr::Arith(a) => {
            let s1 = eval_expr_s(a.left, st);
            match s1.result {
                Result::Ok(lv) => {
                    let s2 = eval_expr_s(a.right, s1.state);
                    match s2.result {
                        Result::Ok(rv) => EvalStep {
                            state: s2.state,
                            result: apply_arith(a.op, lv, rv),
                        },
                        Result::Err(_) => s2,
                    }
                },
                Result::Err(_) => s1,
            }
        },
        AbsExpr::Cmp(c) => {
            let s1 = eval_expr_s(c.left, st);
            match s1.result {
                Result::Ok(lv) => {
                    let s2 = eval_expr_s(c.right, s1.state);
                    match s2.result {
                        Result::Ok(rv) => EvalStep {
                            state: s2.state,
                            result: apply_cmp(c.op, lv, rv),
                        },
                        Result::Err(_) => s2,
                    }
                },
                Result::Err(_) => s1,
            }
        },
        AbsExpr::Logic(l) => {
            let s1 = eval_expr_s(l.left, st);
            match s1.result {
                Result::Ok(lv) => {
                    let s2 = eval_expr_s(l.right, s1.state);
                    match s2.result {
                        Result::Ok(rv) => EvalStep {
                            state: s2.state,
                            result: apply_logic(l.op, lv, rv),
                        },
                        Result::Err(_) => s2,
                    }
                },
                Result::Err(_) => s1,
            }
        },
        AbsExpr::Paren(inner) => eval_expr_s(*inner, st),
        AbsExpr::Unary(u) => match *u {
            crate::ast::AbsUnary::Not(inner) => {
                let s1 = eval_expr_s(inner, st);
                match s1.result {
                    Result::Ok(v) => EvalStep { state: s1.state, result: apply_not(v) },
                    Result::Err(_) => s1,
                }
            },
            crate::ast::AbsUnary::Minus(inner) => {
                let s1 = eval_expr_s(inner, st);
                match s1.result {
                    Result::Ok(v) => EvalStep { state: s1.state, result: apply_minus(v) },
                    Result::Err(_) => s1,
                }
            },
        },
        AbsExpr::Assign(a) => {
            let s1 = eval_expr_s(a.value, st);
            match s1.result {
                Result::Ok(v) => match a.destination {
                    AbsExpr::Id(name) => match a.operator {
                        Option::None => EvalStep {
                            state: EvalState {
                                env: s1.state.env.insert(name, v),
                                out: s1.state.out,
                            },
                            result: Result::Ok(AbsValue::Void),
                        },
                        Option::Some(op) => if s1.state.env.contains_key(name) {
                            match apply_arith(op, s1.state.env[name], v) {
                                Result::Ok(c) => EvalStep {
                                    state: EvalState {
                                        env: s1.state.env.insert(name, c),
                                        out: s1.state.out,
                                    },
                                    result: Result::Ok(AbsValue::Void),
                                },
                                Result::Err(e) => EvalStep {
                                    state: s1.state,
                                    result: Result::Err(e),
                                },
                            }
                        } else {
                            EvalStep {
                                state: s1.state,
                                result: Result::Err(AbsEvalError::UndefinedIdentifier(name)),
                            }
                        },
                    },
                    _ => EvalStep {
                        state: s1.state,
                        result: Result::Err(AbsEvalError::InvalidAssignmentTarget),
                    },
                },
                Result::Err(_) => s1,
            }
        },
    }
}

/// Evaluates one statement. Declarations carry no semantics and report
/// `NotImplemented`; an expression statement is evaluated for its effects.
pub open spec fn eval_statement_s(s: AbsStatement, st: EvalState) -> EvalStep {
    match s {
        AbsStatement::Expr(e) => eval_expr_s(e, st),
        _ => EvalStep { state: st, result: Result::Err(AbsEvalError::NotImplemented) },
    }
}

/// Runs statements in order, stopping at the first error.
pub open spec fn run_items_s(items: Seq<AbsStatement>, st: EvalState) -> (EvalState, Option<
    AbsEvalError,
>)
    decreases items.len(),
{
    if items.len() == 0 {
        (st, Option::None)
    } else {
        let step = eval_statement_s(items[0], st);
        match step.result {
            Result::Ok(_) => run_items_s(items.skip(1), step.state),
            Result::Err(e) => (step.state, Option::Some(e)),
        }
    }
}

/// The empty starting state: no bindings, no output.
pub open spec fn initial_state() -> EvalState {
    EvalState { env: Map::empty(), out: Seq::empty() }
}

/// Runs a whole program from the empty state.
pub open spec fn run_s(p: AbsProgram) -> (EvalState, Option<AbsEvalError>) {
    run_items_s(p.items, initial_state())
}

} // verus!
