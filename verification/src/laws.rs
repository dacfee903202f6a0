//! The library's laws: properties that hold of all inputs, stated over the
//! mathematical semantics and proved once and for all.
use vstd::prelude::*;

use crate::ast::AbsArithExpr;
use crate::ast::AbsExpr;
use crate::ast::AbsLit;
use crate::ast::ArithOp;
use crate::errors::AbsEvalError;
use crate::grammar;
use crate::mem::AbsValue;
use crate::semantics;
use crate::semantics::EvalState;
use crate::text;

verus! {

/// Law: a parenthesized node evaluates to exactly what its inner expression
/// evaluates to, for any expression and any state — grouping never changes
/// the result, only the documented intent.
pub proof fn law_paren_transparent(e: AbsExpr, st: EvalState)
    ensures
        semantics::eval_expr_s(AbsExpr::Paren(Box::new(e)), st) == semantics::eval_expr_s(e, st),
{
}

/// The arithmetic node over two integer literals.
pub open spec fn int_binop(a: i64, op: ArithOp, b: i64) -> AbsExpr {
    AbsExpr::Arith(
        Box::new(
            AbsArithExpr {
                left: AbsExpr::Lit(AbsLit::Int(a)),
                op: op,
                right: AbsExpr::Lit(AbsLit::Int(b)),
            },
        ),
    )
}

/// Law: for integers `a`, `b` with `b != 0` (and aside from the one
/// quotient that overflows 64 bits, the minimum value divided by minus
/// one), division and modulo are the native truncating operations: the
/// quotient and remainder reconstruct the dividend, the remainder is
/// smaller in magnitude than the divisor and carries the dividend's sign.
pub proof fn law_division_modulo_truncate(a: i64, b: i64, st: EvalState)
    requires
        b != 0,
        !(a == i64::MIN && b == -1),
    ensures
        semantics::eval_expr_s(int_binop(a, ArithOp::Div, b), st).result == Result::<
            AbsValue,
            AbsEvalError,
        >::Ok(AbsValue::Int(semantics::i64_div(a, b))),
        semantics::eval_expr_s(int_binop(a, ArithOp::Mod, b), st).result == Result::<
            AbsValue,
            AbsEvalError,
        >::Ok(AbsValue::Int(semantics::i64_rem(a, b))),
        semantics::eval_expr_s(int_binop(a, ArithOp::Div, b), st).state == st,
        a as int == semantics::i64_div(a, b) as int * (b as int) + semantics::i64_rem(a, b) as int,
        (semantics::i64_rem(a, b) as int) * (semantics::i64_rem(a, b) as int) < (b as int) * (
        b as int),
        (semantics::i64_rem(a, b) as int) == 0 || (((semantics::i64_rem(a, b) as int) < 0) <==> ((
        a as int) < 0)),
{
    assert(semantics::eval_expr_s(AbsExpr::Lit(AbsLit::Int(a)), st) == (semantics::EvalStep {
        state: st,
        result: Result::<AbsValue, AbsEvalError>::Ok(AbsValue::Int(a)),
    }));
    assert(semantics::eval_expr_s(AbsExpr::Lit(AbsLit::Int(b)), st) == (semantics::EvalStep {
        state: st,
        result: Result::<AbsValue, AbsEvalError>::Ok(AbsValue::Int(b)),
    }));
    let x = a as int;
    let d = b as int;
    let m = if x >= 0 {
        x
    } else {
        -x
    };
    let md = if d >= 0 {
        d
    } else {
        -d
    };
    vstd::arithmetic::div_mod::lemma_fundamental_div_mod(m, md);
    vstd::arithmetic::div_mod::lemma_mod_division_less_than_divisor(m, md);
    vstd::arithmetic::div_mod::lemma_div_pos_is_pos(m, md);
    vstd::arithmetic::div_mod::lemma_div_nonincreasing(m, md);
    if md == 1 {
        vstd::arithmetic::div_mod::lemma_div_basics(m);
        assert(m / 1 == m);
    } else {
        vstd::arithmetic::div_mod::lemma_div_is_ordered_by_denominator(m, 2, md);
        vstd::arithmetic::div_mod::lemma_fundamental_div_mod(m, 2);
        assert(m / 2 < 0x8000000000000000);
        assert(m / md < 0x8000000000000000);
    }
    let q = semantics::i64_div(a, b) as int;
    let r = semantics::i64_rem(a, b) as int;
    assert(m == md * (m / md) + m % md);
    if x == 0 {
        vstd::arithmetic::div_mod::lemma_div_of0(md);
        assert(0int % md == 0) by {
            vstd::arithmetic::div_mod::lemma_mod_multiples_basic(0, md);
        }
    } else if x > 0 && d > 0 {
        assert(q == x / d && r == x % d);
    } else if x < 0 && d < 0 {
        assert(q == m / md && r == (m % md) * -1);
        assert(x == d * q + r) by (nonlinear_arith)
            requires
                m == md * (m / md) + m % md,
                q == m / md,
                r == (m % md) * -1,
                m == -x,
                md == -d,
        ;
    } else if x < 0 {
        assert(q == (m / md) * -1 && r == (m % md) * -1);
        assert(x == d * q + r) by (nonlinear_arith)
            requires
                m == md * (m / md) + m % md,
                q == (m / md) * -1,
                r == (m % md) * -1,
                m == -x,
                md == d,
        ;
    } else {
        assert(q == (m / md) * -1 && r == m % md);
        assert(x == d * q + r) by (nonlinear_arith)
            requires
                m == md * (m / md) + m % md,
                q == (m / md) * -1,
                r == m % md,
                m == x,
                md == -d,
        ;
    }
    assert(r * r < md * md) by (nonlinear_arith)
        requires
            0 <= (if r >= 0 {
                r
            } else {
                -r
            }) < md,
            md >= 1,
    ;
    assert(md * md == d * d) by (nonlinear_arith)
        requires
            md == d || md == -d,
    ;
}

/// Law: a zero divisor reports `DivisionByZero`, for division and modulo
/// alike, on any integer dividend.
pub proof fn law_division_by_zero(a: i64, op: ArithOp, st: EvalState)
    requires
        op == ArithOp::Div || op == ArithOp::Mod,
    ensures
        semantics::eval_expr_s(int_binop(a, op, 0), st).result == Result::<
            AbsValue,
            AbsEvalError,
        >::Err(AbsEvalError::DivisionByZero),
{
    assert(semantics::eval_expr_s(AbsExpr::Lit(AbsLit::Int(a)), st) == (semantics::EvalStep {
        state: st,
        result: Result::<AbsValue, AbsEvalError>::Ok(AbsValue::Int(a)),
    }));
    assert(semantics::eval_expr_s(AbsExpr::Lit(AbsLit::Int(0)), st) == (semantics::EvalStep {
        state: st,
        result: Result::<AbsValue, AbsEvalError>::Ok(AbsValue::Int(0)),
    }));
}

/// Law: the text the `string` cast produces for an integer is read back to
/// the same integer by the `int` cast — the round trip through text is
/// lossless for every 64-bit integer.
pub proof fn law_int_text_roundtrip(x: i64)
    ensures
        semantics::cast_string(AbsValue::Int(x)) == Result::<AbsValue, AbsEvalError>::Ok(
            AbsValue::Str(text::int_to_dec_str(x as int)),
        ),
        semantics::cast_int(AbsValue::Str(text::int_to_dec_str(x as int))) == Result::<
            AbsValue,
            AbsEvalError,
        >::Ok(AbsValue::Int(x)),
{
    text::lemma_int_text_roundtrip(x);
}

/// Law: the text the `string` cast produces for a boolean is read back to
/// the same boolean by the `bool` cast.
pub proof fn law_bool_text_roundtrip(b: bool)
    ensures
        semantics::cast_string(AbsValue::Bool(b)) == Result::<AbsValue, AbsEvalError>::Ok(
            AbsValue::Str(text::bool_text(b)),
        ),
        semantics::cast_bool(AbsValue::Str(text::bool_text(b))) == Result::<
            AbsValue,
            AbsEvalError,
        >::Ok(AbsValue::Bool(b)),
{
    text::lemma_bool_text_roundtrip(b);
}

/// Law: printing a non-negative integer and parsing the text as source
/// reproduces an equal literal — the grammar reads the printed form back as
/// the same integer literal.
pub proof fn law_print_parse_roundtrip_int(x: i64)
    requires
        x >= 0,
    ensures
        ({
            let t = text::int_to_dec_str(x as int);
            grammar::p_literal(t, 0) == Option::Some(((t.len() as int, AbsLit::Int(x))))
        }),
{
    let t = text::int_to_dec_str(x as int);
    text::lemma_dec_digits_val(x as nat);
    assert(t == text::dec_digits_of(x as nat));
    assert(text::all_digits(t));
    assert(t.len() >= 1);
    grammar::lemma_digits_end_all(t, 0);
    assert(grammar::digits_end(t, 0) == t.len());
    assert(grammar::int_groups_end(t, t.len() as int) == t.len());
    assert(grammar::int_lit_end(t, 0) == Option::Some(t.len() as int));
    assert(grammar::float_lit_end(t, 0) is None);
    assert(forall|k: int| 0 <= k < t.len() ==> t[k] != '_') by {
        assert(forall|k: int| 0 <= k < t.len() ==> text::is_digit(t[k]));
    }
    grammar::lemma_strip_no_underscores(t.subrange(0, t.len() as int));
    assert(t.subrange(0, t.len() as int) =~= t);
    assert(text::dec_val(grammar::strip_underscores(t)) == x);
}

/// Law: printing a boolean and parsing the text as source reproduces an
/// equal literal.
pub proof fn law_print_parse_roundtrip_bool(b: bool)
    ensures
        ({
            let t = text::bool_text(b);
            grammar::p_literal(t, 0) == Option::Some(((t.len() as int, AbsLit::Bool(b))))
        }),
{
    let t = text::bool_text(b);
    reveal_strlit("true");
    reveal_strlit("false");
    assert(!text::is_digit(t[0]));
    assert(t[0] != '"' && t[0] != '\'');
    if b {
        assert(t =~= "true"@);
        assert(t.subrange(0, 4) =~= "true"@);
        assert(grammar::word_at(t, 0, "true"@));
    } else {
        assert(t =~= "false"@);
        assert(t.subrange(0, 5) =~= "false"@);
        assert(!grammar::word_at(t, 0, "true"@)) by {
            if grammar::word_at(t, 0, "true"@) {
                assert(t.subrange(0, 4) == "true"@);
                assert(t[0] == 't');
            }
        }
        assert(grammar::word_at(t, 0, "false"@));
    }
}

} // verus!
