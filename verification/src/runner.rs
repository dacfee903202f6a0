//! The tree-walking evaluator: a structurally recursive, single-pass
//! interpreter with no state besides the binding table and the output text.
//! Every function is verified against the mathematical semantics in
//! `semantics`.
use vstd::prelude::*;
use vstd::string::StringExecFns;

use crate::ast::view_arith;
use crate::ast::view_assign;
use crate::ast::view_cmp;
use crate::ast::view_expr;
use crate::ast::view_fncall;
use crate::ast::view_logic;
use crate::ast::view_statement;
use crate::ast::view_statements;
use crate::ast::view_unary;
use crate::ast::view_vardecl;
use crate::ast::lemma_view_exprs_elts;
use crate::ast::lemma_view_statements_elts;
use crate::ast::AbsExpr;
use crate::ast::ArithExpr;
use crate::ast::ArithOp;
use crate::ast::Assign;
use crate::ast::CacauProgram;
use crate::ast::CmpExpr;
use crate::ast::Expr;
use crate::ast::FnCall;
use crate::ast::Lit;
use crate::ast::LogicExpr;
use crate::ast::Statement;
use crate::ast::Unary;
use crate::ast::VariableDecl;
use crate::mem::SymbolTable;
use crate::semantics::EvalState;
use crate::ast::CmpOp;
use crate::ast::LogicOp;
use crate::errors::AbsEvalError;
use crate::errors::EvalError;
use crate::errors::OpKind;
use crate::mem::AbsValue;
use crate::mem::Value;
use crate::semantics;
use crate::text::format_bool;
use crate::text::format_i64;
use crate::text::parse_bool;
use crate::text::parse_i64;
use crate::text::str_chars;
use crate::text::str_eq;

verus! {

broadcast use vstd::string::group_string_axioms;

/// The ghost reading of an evaluation result.
pub open spec fn res_view(r: Result<Value, EvalError>) -> Result<AbsValue, AbsEvalError> {
    match r {
        Result::Ok(ref v) => Result::Ok(v@),
        Result::Err(ref e) => Result::Err(e@),
    }
}

/// The ghost reading of a whole run's error report.
pub open spec fn opt_err_view(r: Option<EvalError>) -> Option<AbsEvalError> {
    match r {
        Option::Some(ref e) => Option::Some(e@),
        Option::None => Option::None,
    }
}

/// The magnitude of a 64-bit integer, exact also at the minimum value.
fn i64_mag(a: i64) -> (m: u64)
    ensures
        m as int == (if a as int >= 0 {
            a as int
        } else {
            -(a as int)
        }),
{
    if a == i64::MIN {
        9223372036854775808u64
    } else if a < 0 {
        (-a) as u64
    } else {
        a as u64
    }
}

/// Strict lexicographic comparison of character vectors, from position `i`.
fn chars_lt_from(a: &Vec<char>, b: &Vec<char>, i: usize) -> (r: bool)
    requires
        i <= a@.len(),
        i <= b@.len(),
    ensures
        r == semantics::text_lt(a@.skip(i as int), b@.skip(i as int)),
    decreases a@.len() - i,
{
    proof {
        let sa = a@.skip(i as int);
        let sb = b@.skip(i as int);
        assert(sa.len() == a@.len() - i);
        assert(sb.len() == b@.len() - i);
    }
    if i == b.len() {
        false
    } else if i == a.len() {
        true
    } else {
        proof {
            assert(a@.skip(i as int)[0] == a@[i as int]);
            assert(b@.skip(i as int)[0] == b@[i as int]);
        }
        if a[i] != b[i] {
            a[i] < b[i]
        } else {
            proof {
                assert(a@.skip(i as int).skip(1) =~= a@.skip(i as int + 1));
                assert(b@.skip(i as int).skip(1) =~= b@.skip(i as int + 1));
            }
            chars_lt_from(a, b, i + 1)
        }
    }
}

/// Strict lexicographic order on string slices, by character code points.
fn str_lt(a: &str, b: &str) -> (r: bool)
    ensures
        r == semantics::text_lt(a@, b@),
{
    let va = str_chars(a);
    let vb = str_chars(b);
    proof {
        assert(va@.skip(0) =~= a@);
        assert(vb@.skip(0) =~= b@);
    }
    chars_lt_from(&va, &vb, 0)
}

/// Boolean `or`, defined for boolean pairs.
fn eval_or(left: Value, right: Value) -> (r: Result<Value, EvalError>)
    ensures
        res_view(r) == semantics::apply_logic(LogicOp::Or, left@, right@),
{
    match (&left, &right) {
        (Value::Boolean(a), Value::Boolean(b)) => Ok(Value::Boolean(*a || *b)),
        _ => Err(
            EvalError::UnsupportedOperation(
                OpKind::Logic(LogicOp::Or),
                left.value_type(),
                right.value_type(),
            ),
        ),
    }
}

/// Boolean `and`, defined for boolean pairs.
fn eval_and(left: Value, right: Value) -> (r: Result<Value, EvalError>)
    ensures
        res_view(r) == semantics::apply_logic(LogicOp::And, left@, right@),
{
    match (&left, &right) {
        (Value::Boolean(a), Value::Boolean(b)) => Ok(Value::Boolean(*a && *b)),
        _ => Err(
            EvalError::UnsupportedOperation(
                OpKind::Logic(LogicOp::And),
                left.value_type(),
                right.value_type(),
            ),
        ),
    }
}

/// Boolean negation.
fn eval_not(value: Value) -> (r: Result<Value, EvalError>)
    ensures
        res_view(r) == semantics::apply_not(value@),
{
    match &value {
        Value::Boolean(b) => Ok(Value::Boolean(!*b)),
        _ => Err(
            EvalError::UnsupportedOperation(OpKind::Not, value.value_type(), value.value_type()),
        ),
    }
}

/// Numeric negation, wrapping at the 64-bit boundary.
fn eval_minus(value: Value) -> (r: Result<Value, EvalError>)
    ensures
        res_view(r) == semantics::apply_minus(value@),
{
    match &value {
        Value::Integer(a) => {
            if *a == i64::MIN {
                Ok(Value::Integer(i64::MIN))
            } else {
                Ok(Value::Integer(-*a))
            }
        },
        _ => Err(
            EvalError::UnsupportedOperation(OpKind::Minus, value.value_type(), value.value_type()),
        ),
    }
}

/// Addition: wrapping on integers, concatenation on text.
fn eval_add(left: Value, right: Value) -> (r: Result<Value, EvalError>)
    ensures
        res_view(r) == semantics::apply_arith(ArithOp::Add, left@, right@),
{
    match (left, right) {
        (Value::Integer(a), Value::Integer(b)) => Ok(Value::Integer(a.wrapping_add(b))),
        (Value::String(a), Value::String(b)) => Ok(Value::String(a.concat(b.as_str()))),
        (l, rg) => Err(
            EvalError::UnsupportedOperation(
                OpKind::Arith(ArithOp::Add),
                l.value_type(),
                rg.value_type(),
            ),
        ),
    }
}

/// Subtraction: wrapping on integers.
fn eval_subtract(left: Value, right: Value) -> (r: Result<Value, EvalError>)
    ensures
        res_view(r) == semantics::apply_arith(ArithOp::Sub, left@, right@),
{
    match (left, right) {
        (Value::Integer(a), Value::Integer(b)) => Ok(Value::Integer(a.wrapping_sub(b))),
        (l, rg) => Err(
            EvalError::UnsupportedOperation(
                OpKind::Arith(ArithOp::Sub),
                l.value_type(),
                rg.value_type(),
            ),
        ),
    }
}

/// Multiplication: wrapping on integers; text times an integer repeats the
/// text (zero or fewer repetitions give empty text).
fn eval_multiply(left: Value, right: Value) -> (r: Result<Value, EvalError>)
    ensures
        res_view(r) == semantics::apply_arith(ArithOp::Mul, left@, right@),
{
    match (left, right) {
        (Value::Integer(a), Value::Integer(b)) => Ok(Value::Integer(a.wrapping_mul(b))),
        (Value::String(s), Value::Integer(b)) => {
            let mut out = String::new();
            if b > 0 {
                let reps: u64 = b as u64;
                assert(out@ =~= semantics::repeat_text(s@, 0));
                for i in 0..reps
                    invariant
                        out@ == semantics::repeat_text(s@, i as int),
                        reps == b as int,
                {
                    out.append(s.as_str());
                }
                assert(out@ == semantics::repeat_text(s@, b as int));
            } else {
                assert(out@ =~= semantics::repeat_text(s@, b as int));
            }
            Ok(Value::String(out))
        },
        (l, rg) => Err(
            EvalError::UnsupportedOperation(
                OpKind::Arith(ArithOp::Mul),
                l.value_type(),
                rg.value_type(),
            ),
        ),
    }
}

/// Truncating integer division; a zero divisor reports `DivisionByZero`.
fn eval_divide(left: Value, right: Value) -> (r: Result<Value, EvalError>)
    ensures
        res_view(r) == semantics::apply_arith(ArithOp::Div, left@, right@),
{
    match (left, right) {
        (Value::Integer(a), Value::Integer(b)) => {
            if b == 0 {
                return Err(EvalError::DivisionByZero);
            }
            let ma = i64_mag(a);
            let mb = i64_mag(b);
            let mq = ma / mb;
            let same_sign = (a < 0) == (b < 0);
            let q: i64 = if same_sign {
                if mq >= 9223372036854775808u64 {
                    i64::MIN
                } else {
                    mq as i64
                }
            } else {
                if mq >= 9223372036854775808u64 {
                    i64::MIN
                } else {
                    -(mq as i64)
                }
            };
            assert(q == semantics::i64_div(a, b)) by {
                let x = a as int;
                let d = b as int;
                let mai = ma as int;
                let mbi = mb as int;
                vstd::arithmetic::div_mod::lemma_div_pos_is_pos(mai, mbi);
                vstd::arithmetic::div_mod::lemma_div_nonincreasing(mai, mbi);
                assert(mq as int == mai / mbi);
                if mbi == 1 {
                    vstd::arithmetic::div_mod::lemma_div_basics(mai);
                    assert(mq as int == mai);
                } else {
                    vstd::arithmetic::div_mod::lemma_div_is_ordered_by_denominator(mai, 2, mbi);
                    vstd::arithmetic::div_mod::lemma_fundamental_div_mod(mai, 2);
                    assert(mai / 2 < 0x8000000000000000);
                    assert(mq < 0x8000000000000000u64);
                }
                if x == 0 {
                    vstd::arithmetic::div_mod::lemma_div_of0(mbi);
                } else if x > 0 && d > 0 {
                    assert(mai == x && mbi == d);
                } else if x < 0 && d < 0 {
                    assert(mai == x * -1 && mbi == d * -1);
                } else if x < 0 {
                    assert(mai == x * -1 && mbi == d);
                } else {
                    assert(mai == x && mbi == d * -1);
                }
            }
            Ok(Value::Integer(q))
        },
        (l, rg) => Err(
            EvalError::UnsupportedOperation(
                OpKind::Arith(ArithOp::Div),
                l.value_type(),
                rg.value_type(),
            ),
        ),
    }
}

/// Truncating integer remainder, signed like the dividend; a zero divisor
/// reports `DivisionByZero`.
fn eval_modulo(left: Value, right: Value) -> (r: Result<Value, EvalError>)
    ensures
        res_view(r) == semantics::apply_arith(ArithOp::Mod, left@, right@),
{
    match (left, right) {
        (Value::Integer(a), Value::Integer(b)) => {
            if b == 0 {
                return Err(EvalError::DivisionByZero);
            }
            let ma = i64_mag(a);
            let mb = i64_mag(b);
            let mr = ma % mb;
            let rr: i64 = if a < 0 {
                -(mr as i64)
            } else {
                mr as i64
            };
            assert(rr == semantics::i64_rem(a, b)) by {
                let x = a as int;
                let d = b as int;
                let mai = ma as int;
                let mbi = mb as int;
                vstd::arithmetic::div_mod::lemma_mod_division_less_than_divisor(mai, mbi);
                assert(mr as int == mai % mbi);
                assert((mr as int) < mbi);
                if x == 0 {
                    assert(0int % mbi == 0) by {
                        vstd::arithmetic::div_mod::lemma_mod_multiples_basic(0, mbi);
                    }
                } else if x > 0 && d > 0 {
                    assert(mai == x && mbi == d);
                } else if x < 0 && d < 0 {
                    assert(mai == x * -1 && mbi == d * -1);
                } else if x < 0 {
                    assert(mai == x * -1 && mbi == d);
                } else {
                    assert(mai == x && mbi == d * -1);
                }
                if a == i64::MIN && b == -1 {
                    assert(mai == 0x8000000000000000 && mbi == 1);
                    assert(mai % 1 == 0) by {
                        vstd::arithmetic::div_mod::lemma_mod_multiples_basic(mai, 1);
                    }
                }
            }
            Ok(Value::Integer(rr))
        },
        (l, rg) => Err(
            EvalError::UnsupportedOperation(
                OpKind::Arith(ArithOp::Mod),
                l.value_type(),
                rg.value_type(),
            ),
        ),
    }
}

/// Exponentiation by repeated wrapping multiplication; the exponent must be
/// non-negative and fit in 32 bits.
fn eval_power(left: Value, right: Value) -> (r: Result<Value, EvalError>)
    ensures
        res_view(r) == semantics::apply_arith(ArithOp::Pow, left@, right@),
{
    match (left, right) {
        (Value::Integer(a), Value::Integer(b)) => {
            if b < 0 || b > 4294967295i64 {
                return Err(
                    EvalError::UnsupportedOperation(
                        OpKind::Arith(ArithOp::Pow),
                        crate::errors::ValueType::Integer,
                        crate::errors::ValueType::Integer,
                    ),
                );
            }
            let e: u64 = b as u64;
            let mut acc: i64 = 1;
            assert(acc == semantics::i64_pow(a, 0));
            for i in 0..e
                invariant
                    acc == semantics::i64_pow(a, i as nat),
                    e == b as int,
            {
                acc = a.wrapping_mul(acc);
                assert(acc == semantics::i64_pow(a, (i + 1) as nat));
            }
            Ok(Value::Integer(acc))
        },
        (l, rg) => Err(
            EvalError::UnsupportedOperation(
                OpKind::Arith(ArithOp::Pow),
                l.value_type(),
                rg.value_type(),
            ),
        ),
    }
}

/// One comparison applied to a same-typed pair, answering from the strict
/// order and equality of the two sides.
fn eval_comparison(op: CmpOp, left: Value, right: Value) -> (r: Result<Value, EvalError>)
    ensures
        res_view(r) == semantics::apply_cmp(op, left@, right@),
{
    let lt: bool;
    let eq: bool;
    match (&left, &right) {
        (Value::Integer(a), Value::Integer(b)) => {
            lt = *a < *b;
            eq = *a == *b;
        },
        (Value::Boolean(a), Value::Boolean(b)) => {
            lt = !*a && *b;
            eq = *a == *b;
        },
        (Value::Char(a), Value::Char(b)) => {
            lt = *a < *b;
            eq = *a == *b;
        },
        (Value::String(a), Value::String(b)) => {
            lt = str_lt(a.as_str(), b.as_str());
            eq = str_eq(a.as_str(), b.as_str());
        },
        _ => {
            return Err(
                EvalError::UnsupportedOperation(
                    OpKind::Cmp(op),
                    left.value_type(),
                    right.value_type(),
                ),
            );
        },
    }
    let ans = match op {
        CmpOp::EQ => eq,
        CmpOp::NE => !eq,
        CmpOp::LT => lt,
        CmpOp::LE => lt || eq,
        CmpOp::GT => !lt && !eq,
        CmpOp::GE => !lt,
    };
    Ok(Value::Boolean(ans))
}

/// Equality comparison.
fn eval_equals(left: Value, right: Value) -> (r: Result<Value, EvalError>)
    ensures
        res_view(r) == semantics::apply_cmp(CmpOp::EQ, left@, right@),
{
    eval_comparison(CmpOp::EQ, left, right)
}

/// Inequality comparison.
fn eval_not_equals(left: Value, right: Value) -> (r: Result<Value, EvalError>)
    ensures
        res_view(r) == semantics::apply_cmp(CmpOp::NE, left@, right@),
{
    eval_comparison(CmpOp::NE, left, right)
}

/// Strictly-less comparison.
fn eval_less(left: Value, right: Value) -> (r: Result<Value, EvalError>)
    ensures
        res_view(r) == semantics::apply_cmp(CmpOp::LT, left@, right@),
{
    eval_comparison(CmpOp::LT, left, right)
}

/// Less-or-equal comparison.
fn eval_less_equals(left: Value, right: Value) -> (r: Result<Value, EvalError>)
    ensures
        res_view(r) == semantics::apply_cmp(CmpOp::LE, left@, right@),
{
    eval_comparison(CmpOp::LE, left, right)
}

/// Strictly-greater comparison.
fn eval_greater(left: Value, right: Value) -> (r: Result<Value, EvalError>)
    ensures
        res_view(r) == semantics::apply_cmp(CmpOp::GT, left@, right@),
{
    eval_comparison(CmpOp::GT, left, right)
}

/// Greater-or-equal comparison.
fn eval_greater_equals(left: Value, right: Value) -> (r: Result<Value, EvalError>)
    ensures
        res_view(r) == semantics::apply_cmp(CmpOp::GE, left@, right@),
{
    eval_comparison(CmpOp::GE, left, right)
}

/// The text that `print` writes for a value; `Void` is not printable.
fn format_value(v: &Value) -> (r: Result<Vec<char>, EvalError>)
    ensures
        match r {
            Result::Ok(ref t) => semantics::format_value(v@) == Result::<
                Seq<char>,
                AbsEvalError,
            >::Ok(t@),
            Result::Err(ref e) => semantics::format_value(v@) == Result::<
                Seq<char>,
                AbsEvalError,
            >::Err(e@),
        },
{
    match v {
        Value::String(s) => Ok(str_chars(s.as_str())),
        Value::Integer(i) => Ok(format_i64(*i)),
        Value::Boolean(b) => Ok(format_bool(*b)),
        Value::Char(c) => {
            let mut t: Vec<char> = Vec::new();
            t.push(*c);
            assert(t@ =~= seq![*c]);
            Ok(t)
        },
        Value::Void => Err(
            EvalError::UnsupportedOperation(
                OpKind::Print,
                crate::errors::ValueType::Void,
                crate::errors::ValueType::Void,
            ),
        ),
    }
}

/// The `string` cast applied to an evaluated argument.
fn cast_to_string(v: Value) -> (r: Result<Value, EvalError>)
    ensures
        res_view(r) == semantics::cast_string(v@),
{
    match v {
        Value::Boolean(b) => {
            let t = format_bool(b);
            Ok(Value::String(crate::text::chars_to_string(t.as_slice())))
        },
        Value::Integer(i) => {
            let t = format_i64(i);
            Ok(Value::String(crate::text::chars_to_string(t.as_slice())))
        },
        Value::Char(c) => {
            let mut t: Vec<char> = Vec::new();
            t.push(c);
            assert(t@ =~= seq![c]);
            Ok(Value::String(crate::text::chars_to_string(t.as_slice())))
        },
        _ => Err(EvalError::UnsupportedCast),
    }
}

/// The `int` cast applied to an evaluated argument.
fn cast_to_int(v: Value) -> (r: Result<Value, EvalError>)
    ensures
        res_view(r) == semantics::cast_int(v@),
{
    match v {
        Value::String(s) => {
            let t = str_chars(s.as_str());
            match parse_i64(t.as_slice()) {
                Some(i) => Ok(Value::Integer(i)),
                None => Err(EvalError::CastFailed),
            }
        },
        _ => Err(EvalError::UnsupportedCast),
    }
}

/// The `bool` cast applied to an evaluated argument.
fn cast_to_bool(v: Value) -> (r: Result<Value, EvalError>)
    ensures
        res_view(r) == semantics::cast_bool(v@),
{
    match v {
        Value::Integer(i) => Ok(Value::Boolean(i != 0)),
        Value::String(s) => {
            let t = str_chars(s.as_str());
            match parse_bool(t.as_slice()) {
                Some(b) => Ok(Value::Boolean(b)),
                None => Err(EvalError::CastFailed),
            }
        },
        _ => Err(EvalError::UnsupportedCast),
    }
}

/// The `float` cast applied to an evaluated argument: covered sources
/// report `NotImplemented` (the verified core carries no float values),
/// anything else is an unsupported cast.
fn cast_to_float(v: Value) -> (r: Result<Value, EvalError>)
    ensures
        res_view(r) == semantics::cast_float(v@),
{
    match v {
        Value::Integer(_) => Err(EvalError::NotImplemented),
        Value::String(_) => Err(EvalError::NotImplemented),
        _ => Err(EvalError::UnsupportedCast),
    }
}

/// One arithmetic operator applied to two evaluated operands.
fn eval_arith_op(op: ArithOp, left: Value, right: Value) -> (r: Result<Value, EvalError>)
    ensures
        res_view(r) == semantics::apply_arith(op, left@, right@),
{
    match op {
        ArithOp::Add => eval_add(left, right),
        ArithOp::Sub => eval_subtract(left, right),
        ArithOp::Mul => eval_multiply(left, right),
        ArithOp::Div => eval_divide(left, right),
        ArithOp::Pow => eval_power(left, right),
        ArithOp::Mod => eval_modulo(left, right),
    }
}

/// The evaluator: the binding table and the output sink of one run.
pub struct Runner {
    symbol_table: SymbolTable,
    output: Vec<char>,
}

impl View for Runner {
    type V = EvalState;

    closed spec fn view(&self) -> EvalState {
        EvalState { env: self.symbol_table@, out: self.output@ }
    }
}

impl Runner {
    /// Appends formatted text to the output sink.
    fn append_output(&mut self, t: Vec<char>)
        ensures
            final(self)@.env == old(self)@.env,
            final(self)@.out == old(self)@.out + t@,
    {
        let mut tt = t;
        self.output.append(&mut tt);
    }

    /// Looks a name up in the binding table.
    fn eval_identifier(&self, name: &str) -> (r: Result<Value, EvalError>)
        ensures
            res_view(r) == (if self@.env.contains_key(name@) {
                Result::<AbsValue, AbsEvalError>::Ok(self@.env[name@])
            } else {
                Result::<AbsValue, AbsEvalError>::Err(AbsEvalError::UndefinedIdentifier(name@))
            }),
    {
        match self.symbol_table.get_value(name) {
            Some(v) => Ok(v.duplicate()),
            None => Err(EvalError::UndefinedIdentifier(name.to_owned())),
        }
    }

    /// Evaluates one expression node: exactly one value or error, with the
    /// bindings and output threaded depth first, left to right.
    pub fn eval_expr(&mut self, expr: &Expr) -> (r: Result<Value, EvalError>)
        ensures
            ({
                let step = semantics::eval_expr_s(view_expr(*expr), old(self)@);
                final(self)@ == step.state && res_view(r) == step.result
            }),
        decreases expr, 1int,
    {
        match expr {
            Expr::Lit(l) => match l {
                Lit::Bool(b) => Ok(Value::Boolean(*b)),
                Lit::Int(i) => Ok(Value::Integer(*i)),
                Lit::Float(_) => Err(EvalError::NotImplemented),
                Lit::Char(c) => Ok(Value::Char(*c)),
                Lit::String(s) => Ok(Value::String(s.clone())),
            },
            Expr::Id(name) => self.eval_identifier(name.as_str()),
            Expr::VarDecl(d) => self.eval_assignment(d),
            Expr::FnCall(c) => self.eval_function_call(c),
            Expr::Arith(a) => self.eval_arith_expr(a),
            Expr::Cmp(c) => self.eval_cmp_expr(c),
            Expr::Logic(l) => self.eval_logic_expr(l),
            Expr::Paren(inner) => self.eval_expr(inner),
            Expr::Unary(u) => self.eval_unary(u),
            Expr::Assign(a) => self.eval_assign(a),
        }
    }

    /// A prefix operator applied to its term.
    fn eval_unary(&mut self, unary: &Unary) -> (r: Result<Value, EvalError>)
        ensures
            ({
                let step = semantics::eval_expr_s(
                    AbsExpr::Unary(Box::new(view_unary(*unary))),
                    old(self)@,
                );
                final(self)@ == step.state && res_view(r) == step.result
            }),
        decreases unary, 1int,
    {
        match unary {
            Unary::Not(inner) => {
                match self.eval_expr(inner) {
                    Ok(v) => eval_not(v),
                    Err(e) => Err(e),
                }
            },
            Unary::Minus(inner) => {
                match self.eval_expr(inner) {
                    Ok(v) => eval_minus(v),
                    Err(e) => Err(e),
                }
            },
        }
    }

    /// `let name (: annotation)? = expr;` — evaluates the initializer and
    /// binds the name; yields `Void`. The annotation is accepted but not
    /// checked against the value.
    fn eval_assignment(&mut self, assign: &VariableDecl) -> (r: Result<Value, EvalError>)
        ensures
            ({
                let step = semantics::eval_expr_s(
                    AbsExpr::VarDecl(Box::new(view_vardecl(*assign))),
                    old(self)@,
                );
                final(self)@ == step.state && res_view(r) == step.result
            }),
        decreases assign, 1int,
    {
        let val = match self.eval_expr(&assign.expr) {
            Ok(v) => v,
            Err(e) => {
                return Err(e);
            },
        };
        self.symbol_table.create_var(assign.name.as_str(), val);
        Ok(Value::Void)
    }

    /// `destination op= value;` — the destination must be an identifier; a
    /// compound operator first combines the current binding with the value.
    fn eval_assign(&mut self, assign: &Assign) -> (r: Result<Value, EvalError>)
        ensures
            ({
                let step = semantics::eval_expr_s(
                    AbsExpr::Assign(Box::new(view_assign(*assign))),
                    old(self)@,
                );
                final(self)@ == step.state && res_view(r) == step.result
            }),
        decreases assign, 1int,
    {
        let val = match self.eval_expr(&assign.value) {
            Ok(v) => v,
            Err(e) => {
                return Err(e);
            },
        };
        match &assign.destination {
            Expr::Id(name) => {
                match assign.operator {
                    None => {
                        self.symbol_table.create_var(name.as_str(), val);
                        Ok(Value::Void)
                    },
                    Some(op) => {
                        let cur = match self.symbol_table.get_value(name.as_str()) {
                            Some(c) => c.duplicate(),
                            None => {
                                return Err(EvalError::UndefinedIdentifier(name.clone()));
                            },
                        };
                        match eval_arith_op(op, cur, val) {
                            Ok(c) => {
                                self.symbol_table.create_var(name.as_str(), c);
                                Ok(Value::Void)
                            },
                            Err(e) => Err(e),
                        }
                    },
                }
            },
            _ => Err(EvalError::InvalidAssignmentTarget),
        }
    }

    /// A comparison node: both sides evaluate, then the operator's rule.
    fn eval_cmp_expr(&mut self, comp: &CmpExpr) -> (r: Result<Value, EvalError>)
        ensures
            ({
                let step = semantics::eval_expr_s(
                    AbsExpr::Cmp(Box::new(view_cmp(*comp))),
                    old(self)@,
                );
                final(self)@ == step.state && res_view(r) == step.result
            }),
        decreases comp, 1int,
    {
        let left = match self.eval_expr(&comp.left) {
            Ok(v) => v,
            Err(e) => {
                return Err(e);
            },
        };
        let right = match self.eval_expr(&comp.right) {
            Ok(v) => v,
            Err(e) => {
                return Err(e);
            },
        };
        match comp.op {
            CmpOp::EQ => eval_equals(left, right),
            CmpOp::NE => eval_not_equals(left, right),
            CmpOp::LT => eval_less(left, right),
            CmpOp::LE => eval_less_equals(left, right),
            CmpOp::GT => eval_greater(left, right),
            CmpOp::GE => eval_greater_equals(left, right),
        }
    }

    /// An arithmetic node: both sides evaluate, then the coercion table.
    fn eval_arith_expr(&mut self, arith: &ArithExpr) -> (r: Result<Value, EvalError>)
        ensures
            ({
                let step = semantics::eval_expr_s(
                    AbsExpr::Arith(Box::new(view_arith(*arith))),
                    old(self)@,
                );
                final(self)@ == step.state && res_view(r) == step.result
            }),
        decreases arith, 1int,
    {
        let left = match self.eval_expr(&arith.left) {
            Ok(v) => v,
            Err(e) => {
                return Err(e);
            },
        };
        let right = match self.eval_expr(&arith.right) {
            Ok(v) => v,
            Err(e) => {
                return Err(e);
            },
        };
        eval_arith_op(arith.op, left, right)
    }

    /// A boolean connective: both sides evaluate eagerly, then the rule.
    fn eval_logic_expr(&mut self, boolean: &LogicExpr) -> (r: Result<Value, EvalError>)
        ensures
            ({
                let step = semantics::eval_expr_s(
                    AbsExpr::Logic(Box::new(view_logic(*boolean))),
                    old(self)@,
                );
                final(self)@ == step.state && res_view(r) == step.result
            }),
        decreases boolean, 1int,
    {
        let left = match self.eval_expr(&boolean.left) {
            Ok(v) => v,
            Err(e) => {
                return Err(e);
            },
        };
        let right = match self.eval_expr(&boolean.right) {
            Ok(v) => v,
            Err(e) => {
                return Err(e);
            },
        };
        match boolean.op {
            LogicOp::Or => eval_or(left, right),
            LogicOp::And => eval_and(left, right),
        }
    }

    /// Dispatches a call: the callee must be the plain name of a builtin,
    /// applied to exactly one argument.
    fn eval_function_call(&mut self, call: &FnCall) -> (r: Result<Value, EvalError>)
        ensures
            ({
                let step = semantics::eval_expr_s(
                    AbsExpr::FnCall(Box::new(view_fncall(*call))),
                    old(self)@,
                );
                final(self)@ == step.state && res_view(r) == step.result
            }),
        decreases call, 2int,
    {
        proof {
            lemma_view_exprs_elts(call.params@);
        }
        match &call.callee {
            Expr::Id(name) => {
                if call.params.len() == 1 {
                    if str_eq(name.as_str(), "print") {
                        return self.eval_print(call);
                    }
                    if str_eq(name.as_str(), "println") {
                        return self.eval_println(call);
                    }
                    if str_eq(name.as_str(), "assert") {
                        return self.eval_assert(call);
                    }
                    if str_eq(name.as_str(), "string") {
                        return self.eval_string_cast(call);
                    }
                    if str_eq(name.as_str(), "float") {
                        return self.eval_float_cast(call);
                    }
                    if str_eq(name.as_str(), "int") {
                        return self.eval_int_cast(call);
                    }
                    if str_eq(name.as_str(), "bool") {
                        return self.eval_bool_cast(call);
                    }
                }
                Err(EvalError::UnknownFunction(name.clone(), call.params.len()))
            },
            _ => Err(EvalError::UnknownFunction(String::new(), call.params.len())),
        }
    }

    /// Evaluates the single argument of a builtin call.
    fn eval_single_arg(&mut self, call: &FnCall) -> (r: Result<Value, EvalError>)
        requires
            call.params@.len() == 1,
        ensures
            ({
                let s1 = semantics::eval_expr_s(view_fncall(*call).params[0], old(self)@);
                final(self)@ == s1.state && res_view(r) == s1.result
            }),
        decreases call, 0int,
    {
        proof {
            lemma_view_exprs_elts(call.params@);
        }
        self.eval_expr(&call.params[0])
    }

    /// `print(v)`: formats the value and writes it, with no trailing
    /// newline; yields `Void`.
    fn eval_print(&mut self, call: &FnCall) -> (r: Result<Value, EvalError>)
        requires
            call.params@.len() == 1,
        ensures
            ({
                let s1 = semantics::eval_expr_s(view_fncall(*call).params[0], old(self)@);
                let step = match s1.result {
                    Result::Ok(v) => semantics::apply_builtin("print"@, v, s1.state),
                    Result::Err(_) => s1,
                };
                final(self)@ == step.state && res_view(r) == step.result
            }),
        decreases call, 1int,
    {
        let v = match self.eval_single_arg(call) {
            Ok(v) => v,
            Err(e) => {
                return Err(e);
            },
        };
        let t = match format_value(&v) {
            Ok(t) => t,
            Err(e) => {
                return Err(e);
            },
        };
        self.append_output(t);
        Ok(Value::Void)
    }

    /// `println(v)`: formats the value and writes it with a trailing
    /// newline; yields `Void`.
    fn eval_println(&mut self, call: &FnCall) -> (r: Result<Value, EvalError>)
        requires
            call.params@.len() == 1,
        ensures
            ({
                let s1 = semantics::eval_expr_s(view_fncall(*call).params[0], old(self)@);
                let step = match s1.result {
                    Result::Ok(v) => semantics::apply_builtin("println"@, v, s1.state),
                    Result::Err(_) => s1,
                };
                final(self)@ == step.state && res_view(r) == step.result
            }),
        decreases call, 1int,
    {
        proof {
            semantics::lemma_builtin_name_lits();
        }
        let v = match self.eval_single_arg(call) {
            Ok(v) => v,
            Err(e) => {
                return Err(e);
            },
        };
        let mut t = match format_value(&v) {
            Ok(t) => t,
            Err(e) => {
                return Err(e);
            },
        };
        let ghost t0 = t@;
        t.push('\n');
        assert(t@ =~= t0 + seq!['\n']);
        let ghost before = self@;
        self.append_output(t);
        assert(self@.out =~= before.out + t0 + seq!['\n']);
        Ok(Value::Void)
    }

    /// `assert(v)`: fails the run on the boolean `false`; yields `Void` on
    /// `true` and, by current policy, on any non-boolean value.
    fn eval_assert(&mut self, call: &FnCall) -> (r: Result<Value, EvalError>)
        requires
            call.params@.len() == 1,
        ensures
            ({
                let s1 = semantics::eval_expr_s(view_fncall(*call).params[0], old(self)@);
                let step = match s1.result {
                    Result::Ok(v) => semantics::apply_builtin("assert"@, v, s1.state),
                    Result::Err(_) => s1,
                };
                final(self)@ == step.state && res_view(r) == step.result
            }),
        decreases call, 1int,
    {
        proof {
            semantics::lemma_builtin_name_lits();
        }
        let v = match self.eval_single_arg(call) {
            Ok(v) => v,
            Err(e) => {
                return Err(e);
            },
        };
        match v {
            Value::Boolean(assert_ok) => {
                if !assert_ok {
                    Err(EvalError::AssertionFailed)
                } else {
                    Ok(Value::Void)
                }
            },
            _ => Ok(Value::Void),
        }
    }

    /// `string(v)`: the explicit cast to text.
    fn eval_string_cast(&mut self, call: &FnCall) -> (r: Result<Value, EvalError>)
        requires
            call.params@.len() == 1,
        ensures
            ({
                let s1 = semantics::eval_expr_s(view_fncall(*call).params[0], old(self)@);
                let step = match s1.result {
                    Result::Ok(v) => semantics::apply_builtin("string"@, v, s1.state),
                    Result::Err(_) => s1,
                };
                final(self)@ == step.state && res_view(r) == step.result
            }),
        decreases call, 1int,
    {
        proof {
            semantics::lemma_builtin_name_lits();
        }
        match self.eval_single_arg(call) {
            Ok(v) => cast_to_string(v),
            Err(e) => Err(e),
        }
    }

    /// `float(v)`: the explicit cast to a float; carries no semantics in
    /// the verified core.
    fn eval_float_cast(&mut self, call: &FnCall) -> (r: Result<Value, EvalError>)
        requires
            call.params@.len() == 1,
        ensures
            ({
                let s1 = semantics::eval_expr_s(view_fncall(*call).params[0], old(self)@);
                let step = match s1.result {
                    Result::Ok(v) => semantics::apply_builtin("float"@, v, s1.state),
                    Result::Err(_) => s1,
                };
                final(self)@ == step.state && res_view(r) == step.result
            }),
        decreases call, 1int,
    {
        proof {
            semantics::lemma_builtin_name_lits();
        }
        match self.eval_single_arg(call) {
            Ok(v) => cast_to_float(v),
            Err(e) => Err(e),
        }
    }

    /// `int(v)`: the explicit cast to a 64-bit integer.
    fn eval_int_cast(&mut self, call: &FnCall) -> (r: Result<Value, EvalError>)
        requires
            call.params@.len() == 1,
        ensures
            ({
                let s1 = semantics::eval_expr_s(view_fncall(*call).params[0], old(self)@);
                let step = match s1.result {
                    Result::Ok(v) => semantics::apply_builtin("int"@, v, s1.state),
                    Result::Err(_) => s1,
                };
                final(self)@ == step.state && res_view(r) == step.result
            }),
        decreases call, 1int,
    {
        proof {
            semantics::lemma_builtin_name_lits();
        }
        match self.eval_single_arg(call) {
            Ok(v) => cast_to_int(v),
            Err(e) => Err(e),
        }
    }

    /// `bool(v)`: the explicit cast to a boolean.
    fn eval_bool_cast(&mut self, call: &FnCall) -> (r: Result<Value, EvalError>)
        requires
            call.params@.len() == 1,
        ensures
            ({
                let s1 = semantics::eval_expr_s(view_fncall(*call).params[0], old(self)@);
                let step = match s1.result {
                    Result::Ok(v) => semantics::apply_builtin("bool"@, v, s1.state),
                    Result::Err(_) => s1,
                };
                final(self)@ == step.state && res_view(r) == step.result
            }),
        decreases call, 1int,
    {
        proof {
            semantics::lemma_builtin_name_lits();
        }
        match self.eval_single_arg(call) {
            Ok(v) => cast_to_bool(v),
            Err(e) => Err(e),
        }
    }

    /// Evaluates one statement; declarations report `NotImplemented`.
    fn eval_statement(&mut self, item: &Statement) -> (r: Result<Value, EvalError>)
        ensures
            ({
                let step = semantics::eval_statement_s(view_statement(*item), old(self)@);
                final(self)@ == step.state && res_view(r) == step.result
            }),
    {
        match item {
            Statement::Expr(e) => self.eval_expr(e),
            _ => Err(EvalError::NotImplemented),
        }
    }

    /// Runs a whole program from the empty state: every statement in order,
    /// stopping at the first error. Returns the output written so far and
    /// the error, if one stopped the run.
    pub fn run(program: &CacauProgram) -> (r: (String, Option<EvalError>))
        ensures
            ({
                let outcome = semantics::run_s(program@);
                r.0@ == outcome.0.out && opt_err_view(r.1) == outcome.1
            }),
    {
        let mut runner = Runner { symbol_table: SymbolTable::new(), output: Vec::new() };
        let ghost full = view_statements(program.items@);
        proof {
            lemma_view_statements_elts(program.items@);
            assert(runner@.env =~= semantics::initial_state().env);
            assert(runner@.out =~= semantics::initial_state().out);
            assert(full.skip(0) =~= full);
        }
        let n = program.items.len();
        let mut i: usize = 0;
        while i < n
            invariant
                i <= n == program.items@.len(),
                full == view_statements(program.items@),
                full.len() == n,
                semantics::run_items_s(full, semantics::initial_state()) == semantics::run_items_s(
                    full.skip(i as int),
                    runner@,
                ),
            decreases n - i,
        {
            proof {
                lemma_view_statements_elts(program.items@);
                assert(full.skip(i as int)[0] == full[i as int]);
            }
            let ghost prev = runner@;
            let res = runner.eval_statement(&program.items[i]);
            proof {
                let rest = full.skip(i as int);
                let step = semantics::eval_statement_s(rest[0], prev);
                assert(rest.skip(1) =~= full.skip(i as int + 1));
            }
            match res {
                Ok(_) => {},
                Err(e) => {
                    let out = crate::text::chars_to_string(runner.output.as_slice());
                    return (out, Some(e));
                },
            }
            i = i + 1;
        }
        proof {
            assert(full.skip(n as int) =~= Seq::<crate::ast::AbsStatement>::empty());
        }
        let out = crate::text::chars_to_string(runner.output.as_slice());
        (out, None)
    }
}

} // verus!
