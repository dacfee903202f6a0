//! The executable parser: recursive descent with precedence climbing,
//! verified to return exactly what the grammar in `grammar` denotes.
//!
//! Parsing and evaluation are ordinary recursive calls, so the nesting
//! depth a source text can use (parentheses, chained prefix operators) is
//! bounded by the call stack of the host process.
use vstd::prelude::*;

use crate::ast::view_expr;
use crate::ast::view_exprs;
use crate::ast::view_lit;
use crate::ast::view_statement;
use crate::ast::view_statements;
use crate::ast::ArithExpr;
use crate::ast::ArithOp;
use crate::ast::Assign;
use crate::ast::CacauProgram;
use crate::ast::CmpExpr;
use crate::ast::CmpOp;
use crate::ast::Expr;
use crate::ast::FnCall;
use crate::ast::Lit;
use crate::ast::LogicExpr;
use crate::ast::LogicOp;
use crate::ast::Statement;
use crate::ast::Unary;
use crate::ast::VariableDecl;
use crate::errors::SyntaxError;
use crate::grammar;
use crate::text::chars_to_string;
use crate::text::digit;
use crate::text::ident_cont;
use crate::text::letter;
use crate::text::parse_digits_checked;
use crate::text::space;
use crate::text::str_chars;
use crate::text::str_eq;
use vstd::slice::slice_subrange;

pub mod ast;

verus! {

broadcast use vstd::string::group_string_axioms;

/// The position after the whitespace run at `i`.
fn x_ws(src: &Vec<char>, i: usize) -> (j: usize)
    requires
        i <= src@.len(),
    ensures
        j as int == grammar::ws_end(src@, i as int),
        i <= j <= src@.len(),
{
    let n = src.len();
    let mut j = i;
    while j < n && space(src[j])
        invariant
            i <= j <= n == src@.len(),
            grammar::ws_end(src@, i as int) == grammar::ws_end(src@, j as int),
        decreases n - j,
    {
        j = j + 1;
    }
    j
}

/// The position after the identifier-character run at `i`.
fn x_ident_end(src: &Vec<char>, i: usize) -> (j: usize)
    requires
        i <= src@.len(),
    ensures
        j as int == grammar::ident_end(src@, i as int),
        i <= j <= src@.len(),
{
    let n = src.len();
    let mut j = i;
    while j < n && ident_cont(src[j])
        invariant
            i <= j <= n == src@.len(),
            grammar::ident_end(src@, i as int) == grammar::ident_end(src@, j as int),
        decreases n - j,
    {
        j = j + 1;
    }
    j
}

/// The position after the digit run at `i`.
fn x_digits_end(src: &Vec<char>, i: usize) -> (j: usize)
    requires
        i <= src@.len(),
    ensures
        j as int == grammar::digits_end(src@, i as int),
        i <= j <= src@.len(),
{
    let n = src.len();
    let mut j = i;
    while j < n && digit(src[j])
        invariant
            i <= j <= n == src@.len(),
            grammar::digits_end(src@, i as int) == grammar::digits_end(src@, j as int),
        decreases n - j,
    {
        j = j + 1;
    }
    j
}

/// Whether a character may start an identifier.
fn ident_start(c: char) -> (r: bool)
    ensures
        r == grammar::is_ident_start(c),
{
    letter(c) || c == '_'
}

/// Whether the text is one of the reserved words.
fn keyword(w: &str) -> (r: bool)
    ensures
        r == grammar::is_keyword(w@),
{
    str_eq(w, "let") || str_eq(w, "if") || str_eq(w, "elif") || str_eq(w, "else") || str_eq(
        w,
        "fn",
    ) || str_eq(w, "pub") || str_eq(w, "struct") || str_eq(w, "enum") || str_eq(w, "true")
        || str_eq(w, "false") || str_eq(w, "and") || str_eq(w, "or") || str_eq(w, "not") || str_eq(
        w,
        "for",
    )
}

/// Whether the word stands at `i`, not running into an identifier.
fn x_word(src: &Vec<char>, i: usize, w: &str) -> (r: bool)
    requires
        i <= src@.len(),
    ensures
        r == grammar::word_at(src@, i as int, w@),
{
    let wc = str_chars(w);
    let m = wc.len();
    let n = src.len();
    if m > n - i {
        assert(i + w@.len() > src@.len());
        return false;
    }
    let mut k: usize = 0;
    while k < m
        invariant
            k <= m == wc@.len(),
            i + m <= n == src@.len(),
            wc@ == w@,
            forall|q: int| 0 <= q < k ==> src@[i + q] == w@[q],
        decreases m - k,
    {
        if src[i + k] != wc[k] {
            assert(src@.subrange(i as int, i + w@.len())[k as int] != w@[k as int]);
            return false;
        }
        k = k + 1;
    }
    assert(src@.subrange(i as int, i + w@.len()) =~= w@);
    if i + m < n && ident_cont(src[i + m]) {
        false
    } else {
        true
    }
}

/// The digits of a literal with the underscores removed.
fn x_strip(v: &[char]) -> (out: Vec<char>)
    ensures
        out@ == grammar::strip_underscores(v@),
{
    let n = v.len();
    let mut out: Vec<char> = Vec::new();
    proof {
        assert(v@.take(0) =~= Seq::<char>::empty());
    }
    for i in 0..n
        invariant
            n == v@.len(),
            out@ == grammar::strip_underscores(v@.take(i as int)),
    {
        proof {
            assert(v@.take(i as int + 1).drop_last() =~= v@.take(i as int));
            assert(v@.take(i as int + 1).last() == v@[i as int]);
        }
        if v[i] != '_' {
            out.push(v[i]);
        }
    }
    assert(v@.take(n as int) =~= v@);
    out
}

/// An identifier at `i`: its end and its text.
fn x_identifier(src: &Vec<char>, i: usize) -> (r: Option<(usize, String)>)
    requires
        i <= src@.len(),
    ensures
        match r {
            Option::Some((j, name)) => grammar::p_identifier(src@, i as int) == Option::Some(
                ((j as int, name@)),
            ) && i < j <= src@.len(),
            Option::None => grammar::p_identifier(src@, i as int) is None,
        },
{
    let n = src.len();
    if i < n && src[i] == '@' {
        if i + 1 < n && ident_start(src[i + 1]) {
            let j = x_ident_end(src, i + 2);
            let name = chars_to_string(slice_subrange(src.as_slice(), i, j));
            Some((j, name))
        } else {
            None
        }
    } else if i < n && ident_start(src[i]) {
        let j = x_ident_end(src, i + 1);
        let name = chars_to_string(slice_subrange(src.as_slice(), i, j));
        if keyword(name.as_str()) {
            None
        } else {
            Some((j, name))
        }
    } else {
        None
    }
}

/// The end of the underscore-separated digit groups starting at `i`.
fn x_int_groups(src: &Vec<char>, i: usize) -> (j: usize)
    requires
        i <= src@.len(),
    ensures
        j as int == grammar::int_groups_end(src@, i as int),
        i <= j <= src@.len(),
    decreases src@.len() - i,
{
    let n = src.len();
    if i < n && i + 1 < n && src[i] == '_' && digit(src[i + 1]) {
        let j = x_digits_end(src, i + 1);
        if j > i {
            x_int_groups(src, j)
        } else {
            i
        }
    } else {
        i
    }
}

/// The end of the integer literal at `i`, if one stands there.
fn x_int_lit(src: &Vec<char>, i: usize) -> (r: Option<usize>)
    requires
        i <= src@.len(),
    ensures
        match r {
            Option::Some(j) => grammar::int_lit_end(src@, i as int) == Option::Some(j as int) && i
                < j <= src@.len(),
            Option::None => grammar::int_lit_end(src@, i as int) is None,
        },
{
    let n = src.len();
    if i < n && digit(src[i]) {
        let d = x_digits_end(src, i);
        let j = x_int_groups(src, d);
        proof {
            grammar::lemma_int_lit_end(src@, i as int);
        }
        Some(j)
    } else {
        None
    }
}

/// The end of the float literal at `i`, if one stands there.
fn x_float_lit(src: &Vec<char>, i: usize) -> (r: Option<usize>)
    requires
        i <= src@.len(),
    ensures
        match r {
            Option::Some(j) => grammar::float_lit_end(src@, i as int) == Option::Some(j as int)
                && i < j <= src@.len(),
            Option::None => grammar::float_lit_end(src@, i as int) is None,
        },
{
    let n = src.len();
    match x_int_lit(src, i) {
        Some(j) => {
            if j < n && src[j] == '.' {
                match x_int_lit(src, j + 1) {
                    Some(k) => Some(k),
                    None => None,
                }
            } else {
                None
            }
        },
        None => None,
    }
}

/// A literal at `i`: its end and its syntax-tree node.
fn x_literal(src: &Vec<char>, i: usize) -> (r: Option<(usize, Lit)>)
    requires
        i <= src@.len(),
    ensures
        match r {
            Option::Some((j, l)) => grammar::p_literal(src@, i as int) == Option::Some(
                ((j as int, view_lit(l))),
            ) && i < j <= src@.len(),
            Option::None => grammar::p_literal(src@, i as int) is None,
        },
{
    let n = src.len();
    match x_float_lit(src, i) {
        Some(j) => {
            let text = chars_to_string(slice_subrange(src.as_slice(), i, j));
            return Some((j, Lit::Float(text)));
        },
        None => {},
    }
    match x_int_lit(src, i) {
        Some(j) => {
            let text = slice_subrange(src.as_slice(), i, j);
            let digits = x_strip(text);
            proof {
                grammar::lemma_int_lit_chars(src@, i as int);
                grammar::lemma_strip_digits(src@.subrange(i as int, j as int));
            }
            match parse_digits_checked(digits.as_slice()) {
                Some(v) => {
                    return Some((j, Lit::Int(v)));
                },
                None => {
                    return None;
                },
            }
        },
        None => {},
    }
    if i < n && src[i] == '"' {
        // string literal: scan to the closing quote
        let mut j = i + 1;
        while j < n && src[j] != '"'
            invariant
                i + 1 <= j <= n == src@.len(),
                grammar::string_body_end(src@, i as int + 1) == grammar::string_body_end(
                    src@,
                    j as int,
                ),
            decreases n - j,
        {
            j = j + 1;
        }
        if j < n {
            let body = chars_to_string(slice_subrange(src.as_slice(), i + 1, j));
            return Some((j + 1, Lit::String(body)));
        } else {
            proof {
                reveal_strlit("true");
                reveal_strlit("false");
                if grammar::word_at(src@, i as int, "true"@) {
                    assert(src@.subrange(i as int, i as int + 4)[0] == 't');
                }
                if grammar::word_at(src@, i as int, "false"@) {
                    assert(src@.subrange(i as int, i as int + 5)[0] == 'f');
                }
            }
            return None;
        }
    }
    if i < n && i + 1 < n && i + 2 < n && src[i] == '\'' && src[i + 1] != '\'' && src[i + 2]
        == '\'' {
        return Some((i + 3, Lit::Char(src[i + 1])));
    }
    if x_word(src, i, "true") {
        proof {
            reveal_strlit("true");
            assert(i + 4 <= src@.len());
        }
        return Some((i + 4, Lit::Bool(true)));
    }
    if x_word(src, i, "false") {
        proof {
            reveal_strlit("false");
            assert(i + 5 <= src@.len());
        }
        return Some((i + 5, Lit::Bool(false)));
    }
    proof {
        if grammar::p_char_lit(src@, i as int) is Some {
            assert(i + 2 < n && src@[i as int] == '\'' && src@[i as int + 1] != '\'' && src@[i
                as int + 2] == '\'');
        }
    }
    None
}

/// The arithmetic operator at `i`, unless it begins a compound assignment.
fn x_arith_op(src: &Vec<char>, i: usize) -> (r: Option<(usize, ArithOp)>)
    requires
        i <= src@.len(),
    ensures
        match r {
            Option::Some((j, op)) => grammar::arith_op_here(src@, i as int) == Option::Some(
                ((j as int, op)),
            ) && i < j <= src@.len(),
            Option::None => grammar::arith_op_here(src@, i as int) is None,
        },
{
    let n = src.len();
    if i >= n {
        return None;
    }
    let c = src[i];
    let op = if c == '+' {
        Some(ArithOp::Add)
    } else if c == '-' {
        Some(ArithOp::Sub)
    } else if c == '*' {
        Some(ArithOp::Mul)
    } else if c == '/' {
        Some(ArithOp::Div)
    } else if c == '%' {
        Some(ArithOp::Mod)
    } else if c == '^' {
        Some(ArithOp::Pow)
    } else {
        None
    };
    match op {
        Some(op) => {
            if i + 1 < n && src[i + 1] == '=' {
                None
            } else {
                Some((i + 1, op))
            }
        },
        None => None,
    }
}

/// The comparison operator at `i`, two-character forms first.
fn x_cmp_op(src: &Vec<char>, i: usize) -> (r: Option<(usize, CmpOp)>)
    requires
        i <= src@.len(),
    ensures
        match r {
            Option::Some((j, op)) => grammar::cmp_op_at(src@, i as int) == Option::Some(
                ((j as int, op)),
            ) && i < j <= src@.len(),
            Option::None => grammar::cmp_op_at(src@, i as int) is None,
        },
{
    let n = src.len();
    if i < n && i + 1 < n && src[i] == '=' && src[i + 1] == '=' {
        Some((i + 2, CmpOp::EQ))
    } else if i < n && i + 1 < n && src[i] == '!' && src[i + 1] == '=' {
        Some((i + 2, CmpOp::NE))
    } else if i < n && i + 1 < n && src[i] == '<' && src[i + 1] == '=' {
        Some((i + 2, CmpOp::LE))
    } else if i < n && i + 1 < n && src[i] == '>' && src[i + 1] == '=' {
        Some((i + 2, CmpOp::GE))
    } else if i < n && src[i] == '<' {
        Some((i + 1, CmpOp::LT))
    } else if i < n && src[i] == '>' {
        Some((i + 1, CmpOp::GT))
    } else {
        None
    }
}

/// The boolean connective at `i`: the words `and` or `or`.
fn x_logic_op(src: &Vec<char>, i: usize) -> (r: Option<(usize, LogicOp)>)
    requires
        i <= src@.len(),
    ensures
        match r {
            Option::Some((j, op)) => grammar::logic_op_at(src@, i as int) == Option::Some(
                ((j as int, op)),
            ) && i < j <= src@.len(),
            Option::None => grammar::logic_op_at(src@, i as int) is None,
        },
{
    let n = src.len();
    if x_word(src, i, "and") {
        proof {
            reveal_strlit("and");
            assert(i + 3 <= n);
        }
        Some((i + 3, LogicOp::And))
    } else if x_word(src, i, "or") {
        proof {
            reveal_strlit("or");
            assert(i + 2 <= n);
        }
        Some((i + 2, LogicOp::Or))
    } else {
        None
    }
}

/// The precedence level of an arithmetic operator.
fn x_prec(op: ArithOp) -> (p: u32)
    ensures
        p as int == grammar::prec(op),
{
    match op {
        ArithOp::Add => 0,
        ArithOp::Sub => 0,
        ArithOp::Mul => 1,
        ArithOp::Div => 1,
        ArithOp::Mod => 1,
        ArithOp::Pow => 2,
    }
}

/// A term at `i`.
fn x_term(src: &Vec<char>, i: usize) -> (r: Option<(usize, Expr)>)
    requires
        i <= src@.len(),
    ensures
        match r {
            Option::Some((j, e)) => grammar::p_term(src@, i as int) == Option::Some(
                ((j as int, view_expr(e))),
            ) && i < j <= src@.len(),
            Option::None => grammar::p_term(src@, i as int) is None,
        },
    decreases src@.len() - i, 1int,
{
    let n = src.len();
    match x_literal(src, i) {
        Some((j, l)) => {
            return Some((j, Expr::Lit(l)));
        },
        None => {},
    }
    if x_word(src, i, "not") {
        proof {
            reveal_strlit("not");
            assert(i + 3 <= src@.len());
        }
        let k = x_ws(src, i + 3);
        match x_term(src, k) {
            Some((j, t)) => {
                let b = Box::new(Unary::Not(t));
                proof {
                    crate::ast::lemma_view_expr_unary(b);
                }
                return Some((j, Expr::Unary(b)));
            },
            None => {
                return None;
            },
        }
    }
    if i < n && src[i] == '-' {
        let k = x_ws(src, i + 1);
        match x_term(src, k) {
            Some((j, t)) => {
                let b = Box::new(Unary::Minus(t));
                proof {
                    crate::ast::lemma_view_expr_unary(b);
                }
                return Some((j, Expr::Unary(b)));
            },
            None => {
                return None;
            },
        }
    }
    if i < n && src[i] == '(' {
        let k = x_ws(src, i + 1);
        match x_expression(src, k) {
            Some((j, e)) => {
                let m = x_ws(src, j);
                if m < n && src[m] == ')' {
                    return Some((m + 1, Expr::Paren(Box::new(e))));
                } else {
                    return None;
                }
            },
            None => {
                return None;
            },
        }
    }
    match x_identifier(src, i) {
        Some((j, name)) => {
            let k = x_ws(src, j);
            if k < n && src[k] == '(' {
                match x_call_args(src, k + 1) {
                    Some((m, args)) => {
                        let b = Box::new(FnCall { callee: Expr::Id(name), params: args });
                        proof {
                            crate::ast::lemma_view_expr_fncall(b);
                        }
                        Some((m, Expr::FnCall(b)))
                    },
                    None => None,
                }
            } else {
                Some((j, Expr::Id(name)))
            }
        },
        None => None,
    }
}

/// The arguments of a call, from just after the opening parenthesis.
fn x_call_args(src: &Vec<char>, i: usize) -> (r: Option<(usize, Vec<Expr>)>)
    requires
        i <= src@.len(),
    ensures
        match r {
            Option::Some((m, args)) => grammar::p_call_args(src@, i as int) == Option::Some(
                ((m as int, view_exprs(args@))),
            ) && i < m <= src@.len(),
            Option::None => grammar::p_call_args(src@, i as int) is None,
        },
    decreases src@.len() - i, 9int,
{
    let n = src.len();
    let j = x_ws(src, i);
    if j < n && src[j] == ')' {
        proof {
            assert(view_exprs(Seq::<Expr>::empty()) =~= Seq::<crate::ast::AbsExpr>::empty());
        }
        return Some((j + 1, Vec::new()));
    }
    match x_expression(src, j) {
        Some((k, e)) => {
            let mut args: Vec<Expr> = Vec::new();
            proof {
                assert(view_exprs(Seq::<Expr>::empty()) =~= Seq::<crate::ast::AbsExpr>::empty());
            }
            let ghost ve = view_expr(e);
            args.push(e);
            proof {
                assert(args@.drop_last() =~= Seq::<Expr>::empty());
                assert(view_exprs(args@) =~= seq![ve]);
            }
            x_more_args(src, k, args)
        },
        None => None,
    }
}

/// Further call arguments, each preceded by a comma; a trailing comma is
/// allowed.
fn x_more_args(src: &Vec<char>, i: usize, acc: Vec<Expr>) -> (r: Option<(usize, Vec<Expr>)>)
    requires
        i <= src@.len(),
    ensures
        match r {
            Option::Some((m, args)) => grammar::p_more_args(src@, i as int, view_exprs(acc@))
                == Option::Some(((m as int, view_exprs(args@)))) && i < m <= src@.len(),
            Option::None => grammar::p_more_args(src@, i as int, view_exprs(acc@)) is None,
        },
    decreases src@.len() - i, 8int,
{
    let n = src.len();
    let j = x_ws(src, i);
    if j < n && src[j] == ')' {
        return Some((j + 1, acc));
    }
    if j < n && src[j] == ',' {
        let k = x_ws(src, j + 1);
        if k < n && src[k] == ')' {
            return Some((k + 1, acc));
        }
        match x_expression(src, k) {
            Some((m, e)) => {
                let mut acc2 = acc;
                let ghost before = acc2@;
                let ghost ve = view_expr(e);
                acc2.push(e);
                proof {
                    assert(acc2@.drop_last() =~= before);
                    assert(view_exprs(acc2@) =~= view_exprs(before).push(ve));
                }
                x_more_args(src, m, acc2)
            },
            None => None,
        }
    } else {
        None
    }
}

/// Precedence climbing from a minimum level.
fn x_climb(src: &Vec<char>, i: usize, minlvl: u32) -> (r: Option<(usize, Expr)>)
    requires
        i <= src@.len(),
    ensures
        match r {
            Option::Some((j, e)) => grammar::p_climb(src@, i as int, minlvl as int)
                == Option::Some(((j as int, view_expr(e)))) && i < j <= src@.len(),
            Option::None => grammar::p_climb(src@, i as int, minlvl as int) is None,
        },
    decreases src@.len() - i, 3int,
{
    match x_term(src, i) {
        Some((j, t)) => x_climb_rest(src, j, t, minlvl),
        None => None,
    }
}

/// The climbing loop, written recursively: folds operators at or above the
/// minimum level onto the left operand.
fn x_climb_rest(src: &Vec<char>, i: usize, acc: Expr, minlvl: u32) -> (r: Option<(usize, Expr)>)
    requires
        i <= src@.len(),
    ensures
        match r {
            Option::Some((j, e)) => grammar::p_climb_rest(
                src@,
                i as int,
                view_expr(acc),
                minlvl as int,
            ) == Option::Some(((j as int, view_expr(e)))) && i <= j <= src@.len(),
            Option::None => grammar::p_climb_rest(src@, i as int, view_expr(acc), minlvl as int)
                is None,
        },
    decreases src@.len() - i, 2int,
{
    let n = src.len();
    let j = x_ws(src, i);
    match x_arith_op(src, j) {
        Some((j2, op)) => {
            let p = x_prec(op);
            if p < minlvl {
                return Some((i, acc));
            }
            let k = x_ws(src, j2);
            let sub: u32 = if p == 2 {
                2
            } else {
                p + 1
            };
            match x_climb(src, k, sub) {
                Some((m, rhs)) => {
                    let b = Box::new(ArithExpr { left: acc, op, right: rhs });
                    proof {
                        crate::ast::lemma_view_expr_arith(b);
                    }
                    let folded = Expr::Arith(b);
                    x_climb_rest(src, m, folded, minlvl)
                },
                None => Some((i, acc)),
            }
        },
        None => Some((i, acc)),
    }
}

/// A mathematical expression: climbing from the lowest level.
fn x_math(src: &Vec<char>, i: usize) -> (r: Option<(usize, Expr)>)
    requires
        i <= src@.len(),
    ensures
        match r {
            Option::Some((j, e)) => grammar::p_math(src@, i as int) == Option::Some(
                ((j as int, view_expr(e))),
            ) && i < j <= src@.len(),
            Option::None => grammar::p_math(src@, i as int) is None,
        },
    decreases src@.len() - i, 4int,
{
    x_climb(src, i, 0)
}

/// A comparison: a mathematical expression, optionally compared once.
fn x_comparison(src: &Vec<char>, i: usize) -> (r: Option<(usize, Expr)>)
    requires
        i <= src@.len(),
    ensures
        match r {
            Option::Some((j, e)) => grammar::p_comparison(src@, i as int) == Option::Some(
                ((j as int, view_expr(e))),
            ) && i < j <= src@.len(),
            Option::None => grammar::p_comparison(src@, i as int) is None,
        },
    decreases src@.len() - i, 5int,
{
    let n = src.len();
    match x_math(src, i) {
        Some((j, left)) => {
            let k = x_ws(src, j);
            match x_cmp_op(src, k) {
                Some((k2, op)) => {
                    let m = x_ws(src, k2);
                    match x_math(src, m) {
                        Some((q, right)) => {
                            let b = Box::new(CmpExpr { left, op, right });
                            proof {
                                crate::ast::lemma_view_expr_cmp(b);
                            }
                            Some((q, Expr::Cmp(b)))
                        },
                        None => Some((j, left)),
                    }
                },
                None => Some((j, left)),
            }
        },
        None => None,
    }
}

/// A logical expression: comparisons joined by `and`/`or`, folded left.
fn x_logic(src: &Vec<char>, i: usize) -> (r: Option<(usize, Expr)>)
    requires
        i <= src@.len(),
    ensures
        match r {
            Option::Some((j, e)) => grammar::p_logic(src@, i as int) == Option::Some(
                ((j as int, view_expr(e))),
            ) && i < j <= src@.len(),
            Option::None => grammar::p_logic(src@, i as int) is None,
        },
    decreases src@.len() - i, 7int,
{
    match x_comparison(src, i) {
        Some((j, first)) => x_logic_rest(src, j, first),
        None => None,
    }
}

/// The fold of further `and`/`or` comparisons onto the left operand.
fn x_logic_rest(src: &Vec<char>, i: usize, acc: Expr) -> (r: Option<(usize, Expr)>)
    requires
        i <= src@.len(),
    ensures
        match r {
            Option::Some((j, e)) => grammar::p_logic_rest(src@, i as int, view_expr(acc))
                == Option::Some(((j as int, view_expr(e)))) && i <= j <= src@.len(),
            Option::None => grammar::p_logic_rest(src@, i as int, view_expr(acc)) is None,
        },
    decreases src@.len() - i, 6int,
{
    let n = src.len();
    let j = x_ws(src, i);
    match x_logic_op(src, j) {
        Some((j2, op)) => {
            let k = x_ws(src, j2);
            match x_comparison(src, k) {
                Some((m, right)) => {
                    let b = Box::new(LogicExpr { left: acc, op, right });
                    proof {
                        crate::ast::lemma_view_expr_logic(b);
                    }
                    let folded = Expr::Logic(b);
                    x_logic_rest(src, m, folded)
                },
                None => Some((i, acc)),
            }
        },
        None => Some((i, acc)),
    }
}

/// An expression: the logical level binds loosest.
fn x_expression(src: &Vec<char>, i: usize) -> (r: Option<(usize, Expr)>)
    requires
        i <= src@.len(),
    ensures
        match r {
            Option::Some((j, e)) => grammar::p_expression(src@, i as int) == Option::Some(
                ((j as int, view_expr(e))),
            ) && i < j <= src@.len(),
            Option::None => grammar::p_expression(src@, i as int) is None,
        },
    decreases src@.len() - i, 8int,
{
    x_logic(src, i)
}

/// A type annotation at `i`: the end and the named type.
fn x_type_annotation(src: &Vec<char>, i: usize) -> (r: Option<(usize, String)>)
    requires
        i <= src@.len(),
    ensures
        match r {
            Option::Some((j, ty)) => grammar::p_type_annotation(src@, i as int) == Option::Some(
                ((j as int, ty@)),
            ) && i < j <= src@.len(),
            Option::None => grammar::p_type_annotation(src@, i as int) is None,
        },
{
    let n = src.len();
    if i < n && src[i] == ':' {
        let j = x_ws(src, i + 1);
        x_identifier(src, j)
    } else {
        None
    }
}

/// The meaningful assignment operator at `i`, if any.
fn x_assign_op(src: &Vec<char>, i: usize) -> (r: Option<(usize, Option<ArithOp>)>)
    requires
        i <= src@.len(),
    ensures
        match r {
            Option::Some((j, op)) => grammar::assign_op_sem(src@, i as int) == Option::Some(
                ((j as int, op)),
            ) && i < j <= src@.len(),
            Option::None => grammar::assign_op_sem(src@, i as int) is None,
        },
{
    let n = src.len();
    if i < n && i + 1 < n && src[i + 1] == '=' && (src[i] == '+' || src[i] == '-' || src[i] == '*'
        || src[i] == '/' || src[i] == '%' || src[i] == '^') {
        let op = if src[i] == '+' {
            ArithOp::Add
        } else if src[i] == '-' {
            ArithOp::Sub
        } else if src[i] == '*' {
            ArithOp::Mul
        } else if src[i] == '/' {
            ArithOp::Div
        } else if src[i] == '%' {
            ArithOp::Mod
        } else {
            ArithOp::Pow
        };
        Some((i + 2, Some(op)))
    } else if i < n && src[i] == '=' && !(i + 1 < n && src[i + 1] == '=') {
        Some((i + 1, None))
    } else {
        None
    }
}

/// A `let` statement at `i`.
fn x_let_stmt(src: &Vec<char>, i: usize) -> (r: Option<(usize, Statement)>)
    requires
        i <= src@.len(),
    ensures
        match r {
            Option::Some((j, st)) => grammar::p_let_stmt(src@, i as int) == Option::Some(
                ((j as int, view_statement(st))),
            ) && i < j <= src@.len(),
            Option::None => grammar::p_let_stmt(src@, i as int) is None,
        },
    decreases src@.len() - i, 9int,
{
    let n = src.len();
    if !x_word(src, i, "let") {
        return None;
    }
    proof {
        reveal_strlit("let");
        assert(i + 3 <= n);
    }
    let j = x_ws(src, i + 3);
    let (k, name) = match x_identifier(src, j) {
        Some(p) => p,
        None => {
            return None;
        },
    };
    let j2 = x_ws(src, k);
    let ty: Option<String>;
    let j4: usize;
    if j2 < n && src[j2] == ':' {
        match x_type_annotation(src, j2) {
            Some((k2, t)) => {
                ty = Some(t);
                j4 = x_ws(src, k2);
            },
            None => {
                return None;
            },
        }
    } else {
        ty = None;
        j4 = j2;
    }
    if !(j4 < n && src[j4] == '=') {
        return None;
    }
    if j4 + 1 < n && src[j4 + 1] == '=' {
        return None;
    }
    assert(grammar::assign_op_sem(src@, j4 as int) == Option::Some(
        ((j4 as int + 1, Option::<ArithOp>::None)),
    ));
    let j5 = x_ws(src, j4 + 1);
    let (m, e) = match x_expression(src, j5) {
        Some(p) => p,
        None => {
            return None;
        },
    };
    let j6 = x_ws(src, m);
    if j6 < n && src[j6] == ';' {
        let b = Box::new(VariableDecl { name, type_annotation: ty, expr: e });
        proof {
            crate::ast::lemma_view_expr_vardecl(b);
        }
        Some((j6 + 1, Statement::Expr(Expr::VarDecl(b))))
    } else {
        None
    }
}

/// An assignment statement at `i`.
fn x_assign_stmt(src: &Vec<char>, i: usize) -> (r: Option<(usize, Statement)>)
    requires
        i <= src@.len(),
    ensures
        match r {
            Option::Some((j, st)) => grammar::p_assign_stmt(src@, i as int) == Option::Some(
                ((j as int, view_statement(st))),
            ) && i < j <= src@.len(),
            Option::None => grammar::p_assign_stmt(src@, i as int) is None,
        },
    decreases src@.len() - i, 9int,
{
    let n = src.len();
    let (j, name) = match x_identifier(src, i) {
        Some(p) => p,
        None => {
            return None;
        },
    };
    let j2 = x_ws(src, j);
    let (k, op) = match x_assign_op(src, j2) {
        Some(p) => p,
        None => {
            return None;
        },
    };
    let k2 = x_ws(src, k);
    let (m, e) = match x_expression(src, k2) {
        Some(p) => p,
        None => {
            return None;
        },
    };
    let j3 = x_ws(src, m);
    if j3 < n && src[j3] == ';' {
        let b = Box::new(Assign { destination: Expr::Id(name), operator: op, value: e });
        proof {
            crate::ast::lemma_view_expr_assign(b);
        }
        Some((j3 + 1, Statement::Expr(Expr::Assign(b))))
    } else {
        None
    }
}

/// An expression statement at `i`.
fn x_expr_stmt(src: &Vec<char>, i: usize) -> (r: Option<(usize, Statement)>)
    requires
        i <= src@.len(),
    ensures
        match r {
            Option::Some((j, st)) => grammar::p_expr_stmt(src@, i as int) == Option::Some(
                ((j as int, view_statement(st))),
            ) && i < j <= src@.len(),
            Option::None => grammar::p_expr_stmt(src@, i as int) is None,
        },
    decreases src@.len() - i, 9int,
{
    let n = src.len();
    let (j, e) = match x_expression(src, i) {
        Some(p) => p,
        None => {
            return None;
        },
    };
    let k = x_ws(src, j);
    if k < n && src[k] == ';' {
        Some((k + 1, Statement::Expr(e)))
    } else {
        None
    }
}

/// One statement at `i`: `let`, assignment, or expression statement, tried
/// in that order.
fn x_statement(src: &Vec<char>, i: usize) -> (r: Option<(usize, Statement)>)
    requires
        i <= src@.len(),
    ensures
        match r {
            Option::Some((j, st)) => grammar::p_statement(src@, i as int) == Option::Some(
                ((j as int, view_statement(st))),
            ) && i < j <= src@.len(),
            Option::None => grammar::p_statement(src@, i as int) is None,
        },
    decreases src@.len() - i, 10int,
{
    match x_let_stmt(src, i) {
        Some(p) => {
            return Some(p);
        },
        None => {},
    }
    match x_assign_stmt(src, i) {
        Some(p) => {
            return Some(p);
        },
        None => {},
    }
    x_expr_stmt(src, i)
}

/// Parses source text into a program: the statements that cover the whole
/// text, or a syntax error carrying the position where matching gave up.
pub fn parse(input: &str) -> (r: Result<CacauProgram, SyntaxError>)
    ensures
        match r {
            Result::Ok(ref prog) => grammar::p_program(input@) == Option::Some(
                view_statements(prog.items@),
            ),
            Result::Err(ref e) => grammar::p_program(input@) is None && e.location <= input@.len(),
        },
{
    let src = str_chars(input);
    let n = src.len();
    let mut items: Vec<Statement> = Vec::new();
    let mut i: usize = 0;
    proof {
        assert(view_statements(Seq::<Statement>::empty()) =~= Seq::<
            crate::ast::AbsStatement,
        >::empty());
    }
    loop
        invariant
            i <= n == src@.len(),
            src@ == input@,
            grammar::p_stmts(input@, 0, Seq::empty()) == grammar::p_stmts(
                input@,
                i as int,
                view_statements(items@),
            ),
        decreases n - i,
    {
        let j = x_ws(&src, i);
        if j == n {
            return Ok(CacauProgram { items });
        }
        match x_statement(&src, j) {
            Some((k, st)) => {
                let ghost before = items@;
                let ghost vst = view_statement(st);
                items.push(st);
                proof {
                    assert(items@.drop_last() =~= before);
                    assert(view_statements(items@) =~= view_statements(before).push(vst));
                }
                i = k;
            },
            None => {
                return Err(SyntaxError { location: j });
            },
        }
    }
}

/// Any assignment operator the grammar recognizes at `i`.
fn x_assign_any(src: &Vec<char>, i: usize) -> (r: Option<usize>)
    requires
        i <= src@.len(),
    ensures
        match r {
            Option::Some(j) => grammar::assign_op_any(src@, i as int) == Option::Some(j as int)
                && i < j <= src@.len(),
            Option::None => grammar::assign_op_any(src@, i as int) is None,
        },
{
    let n = src.len();
    match x_assign_op(src, i) {
        Some((j, _)) => Some(j),
        None => {
            if i < n && i + 1 < n && src[i + 1] == '=' && (src[i] == '&' || src[i] == '|') {
                Some(i + 2)
            } else if i < n && i + 1 < n && i + 2 < n && src[i + 2] == '=' && ((src[i] == '<'
                && src[i + 1] == '<') || (src[i] == '>' && src[i + 1] == '>')) {
                Some(i + 3)
            } else {
                None
            }
        },
    }
}

/// An assignment statement with any recognized operator: end position only.
fn x_assign_stmt_any(src: &Vec<char>, i: usize) -> (r: Option<usize>)
    requires
        i <= src@.len(),
    ensures
        match r {
            Option::Some(j) => grammar::assign_stmt_any_end(src@, i as int) == Option::Some(
                j as int,
            ) && i < j <= src@.len(),
            Option::None => grammar::assign_stmt_any_end(src@, i as int) is None,
        },
{
    let n = src.len();
    let (j, _name) = match x_identifier(src, i) {
        Some(p) => p,
        None => {
            return None;
        },
    };
    let j2 = x_ws(src, j);
    let k = match x_assign_any(src, j2) {
        Some(k) => k,
        None => {
            return None;
        },
    };
    let k2 = x_ws(src, k);
    let (m, _e) = match x_expression(src, k2) {
        Some(p) => p,
        None => {
            return None;
        },
    };
    let j3 = x_ws(src, m);
    if j3 < n && src[j3] == ';' {
        Some(j3 + 1)
    } else {
        None
    }
}

/// One `name: type` pair of a parameter list: end position only.
fn x_param_pair(src: &Vec<char>, i: usize) -> (r: Option<usize>)
    requires
        i <= src@.len(),
    ensures
        match r {
            Option::Some(j) => grammar::param_pair_end(src@, i as int) == Option::Some(j as int)
                && i < j <= src@.len(),
            Option::None => grammar::param_pair_end(src@, i as int) is None,
        },
{
    let n = src.len();
    let (j, _name) = match x_identifier(src, i) {
        Some(p) => p,
        None => {
            return None;
        },
    };
    let j2 = x_ws(src, j);
    if j2 < n && src[j2] == ':' {
        let j3 = x_ws(src, j2 + 1);
        match x_identifier(src, j3) {
            Some((k, _)) => Some(k),
            None => None,
        }
    } else {
        None
    }
}

/// Further comma-separated pairs: the end position.
fn x_param_more(src: &Vec<char>, i: usize) -> (j: usize)
    requires
        i <= src@.len(),
    ensures
        j as int == grammar::param_more_end(src@, i as int),
        i <= j <= src@.len(),
    decreases src@.len() - i,
{
    let n = src.len();
    let j = x_ws(src, i);
    if j < n && src[j] == ',' {
        let k = x_ws(src, j + 1);
        match x_param_pair(src, k) {
            Some(q) => {
                if q > i {
                    x_param_more(src, q)
                } else {
                    j + 1
                }
            },
            None => j + 1,
        }
    } else {
        i
    }
}

/// A whole parameter list: the end position, if one stands at `i`.
fn x_param_list(src: &Vec<char>, i: usize) -> (r: Option<usize>)
    requires
        i <= src@.len(),
    ensures
        match r {
            Option::Some(j) => grammar::param_list_end(src@, i as int) == Option::Some(j as int)
                && i <= j <= src@.len(),
            Option::None => grammar::param_list_end(src@, i as int) is None,
        },
{
    match x_param_pair(src, i) {
        Some(j) => Some(x_param_more(src, j)),
        None => None,
    }
}

/// A grammar production that text can be matched against.
#[derive(Debug, Clone, Copy, PartialEq, Eq, Structural)]
pub enum Rule {
    Program,
    Expression,
    Term,
    ArithmeticOperation,
    Literal,
    FloatLiteral,
    IntegerLiteral,
    StringLiteral,
    CharLiteral,
    BooleanLiteral,
    Identifier,
    TypeAnnotation,
    LetStatement,
    AssignmentStatement,
    FunctionParameterList,
    EOI,
}

/// Where a match of the given rule at `i` ends, if the rule matches there.
pub open spec fn rule_end(rule: Rule, s: Seq<char>, i: int) -> Option<int> {
    match rule {
        Rule::Program => match grammar::p_stmts(s, i, Seq::empty()) {
            Option::Some((j, _)) => Option::Some(j),
            Option::None => Option::None,
        },
        Rule::Expression => match grammar::p_expression(s, i) {
            Option::Some((j, _)) => Option::Some(j),
            Option::None => Option::None,
        },
        Rule::Term => match grammar::p_term(s, i) {
            Option::Some((j, _)) => Option::Some(j),
            Option::None => Option::None,
        },
        Rule::ArithmeticOperation => match grammar::p_math(s, i) {
            Option::Some((j, _)) => Option::Some(j),
            Option::None => Option::None,
        },
        Rule::Literal => match grammar::p_literal(s, i) {
            Option::Some((j, _)) => Option::Some(j),
            Option::None => Option::None,
        },
        Rule::FloatLiteral => grammar::float_lit_end(s, i),
        Rule::IntegerLiteral => grammar::int_lit_end(s, i),
        Rule::StringLiteral => match grammar::p_string_lit(s, i) {
            Option::Some((j, _)) => Option::Some(j),
            Option::None => Option::None,
        },
        Rule::CharLiteral => match grammar::p_char_lit(s, i) {
            Option::Some((j, _)) => Option::Some(j),
            Option::None => Option::None,
        },
        Rule::BooleanLiteral => match grammar::p_bool_lit(s, i) {
            Option::Some((j, _)) => Option::Some(j),
            Option::None => Option::None,
        },
        Rule::Identifier => match grammar::p_identifier(s, i) {
            Option::Some((j, _)) => Option::Some(j),
            Option::None => Option::None,
        },
        Rule::TypeAnnotation => match grammar::p_type_annotation(s, i) {
            Option::Some((j, _)) => Option::Some(j),
            Option::None => Option::None,
        },
        Rule::LetStatement => match grammar::p_let_stmt(s, i) {
            Option::Some((j, _)) => Option::Some(j),
            Option::None => Option::None,
        },
        Rule::AssignmentStatement => grammar::assign_stmt_any_end(s, i),
        Rule::FunctionParameterList => grammar::param_list_end(s, i),
        Rule::EOI => if i == s.len() {
            Option::Some(i)
        } else {
            Option::None
        },
    }
}

/// The grammar-driven parser: matches source text against a starting rule.
pub struct CacauParser;

impl CacauParser {
    /// Whether the rule matches the whole text: the match starts at the
    /// first character and leaves nothing unconsumed.
    pub fn matches_whole(rule: Rule, input: &str) -> (r: bool)
        ensures
            r == (rule_end(rule, input@, 0) == Option::Some(input@.len() as int)),
    {
        let src = str_chars(input);
        let n = src.len();
        let end: Option<usize> = match rule {
            Rule::Program => {
                proof {
                    grammar::lemma_p_stmts_end(input@, 0, Seq::empty());
                }
                match parse(input) {
                    Ok(_) => Some(n),
                    Err(_) => None,
                }
            },
            Rule::Expression => match x_expression(&src, 0) {
                Some((j, _)) => Some(j),
                None => None,
            },
            Rule::Term => match x_term(&src, 0) {
                Some((j, _)) => Some(j),
                None => None,
            },
            Rule::ArithmeticOperation => match x_math(&src, 0) {
                Some((j, _)) => Some(j),
                None => None,
            },
            Rule::Literal => match x_literal(&src, 0) {
                Some((j, _)) => Some(j),
                None => None,
            },
            Rule::FloatLiteral => x_float_lit(&src, 0),
            Rule::IntegerLiteral => x_int_lit(&src, 0),
            Rule::StringLiteral => match Self::x_string_rule(&src) {
                Some(j) => Some(j),
                None => None,
            },
            Rule::CharLiteral => {
                if 0 < n && 1 < n && 2 < n && src[0] == '\'' && src[1] != '\'' && src[2] == '\'' {
                    Some(3)
                } else {
                    None
                }
            },
            Rule::BooleanLiteral => {
                if x_word(&src, 0, "true") {
                    proof {
                        reveal_strlit("true");
                    }
                    Some(4)
                } else if x_word(&src, 0, "false") {
                    proof {
                        reveal_strlit("false");
                    }
                    Some(5)
                } else {
                    None
                }
            },
            Rule::Identifier => match x_identifier(&src, 0) {
                Some((j, _)) => Some(j),
                None => None,
            },
            Rule::TypeAnnotation => match x_type_annotation(&src, 0) {
                Some((j, _)) => Some(j),
                None => None,
            },
            Rule::LetStatement => match x_let_stmt(&src, 0) {
                Some((j, _)) => Some(j),
                None => None,
            },
            Rule::AssignmentStatement => x_assign_stmt_any(&src, 0),
            Rule::FunctionParameterList => x_param_list(&src, 0),
            Rule::EOI => {
                if n == 0 {
                    Some(0)
                } else {
                    None
                }
            },
        };
        match end {
            Some(j) => j == n,
            None => false,
        }
    }

    /// The end of a string-literal match over the given characters.
    fn x_string_rule(src: &Vec<char>) -> (r: Option<usize>)
        ensures
            match r {
                Option::Some(j) => grammar::p_string_lit(src@, 0) matches Option::Some((jj, _))
                    && jj == j as int,
                Option::None => grammar::p_string_lit(src@, 0) is None,
            },
    {
        let n = src.len();
        if 0 < n && src[0] == '"' {
            let mut j: usize = 1;
            while j < n && src[j] != '"'
                invariant
                    1 <= j <= n == src@.len(),
                    grammar::string_body_end(src@, 1) == grammar::string_body_end(src@, j as int),
                decreases n - j,
            {
                j = j + 1;
            }
            if j < n {
                Some(j + 1)
            } else {
                None
            }
        } else {
            None
        }
    }
}

/// The rule that a rule name denotes, as host tooling writes it.
pub open spec fn rule_of_name(n: Seq<char>) -> Option<Rule> {
    if n == "Expression"@ {
        Option::Some(Rule::Expression)
    } else if n == "Program"@ {
        Option::Some(Rule::Program)
    } else if n == "Literal"@ {
        Option::Some(Rule::Literal)
    } else if n == "FloatLiteral"@ {
        Option::Some(Rule::FloatLiteral)
    } else if n == "IntegerLiteral"@ {
        Option::Some(Rule::IntegerLiteral)
    } else if n == "CharLiteral"@ {
        Option::Some(Rule::CharLiteral)
    } else if n == "BooleanLiteral"@ {
        Option::Some(Rule::BooleanLiteral)
    } else if n == "StringLiteral"@ {
        Option::Some(Rule::StringLiteral)
    } else if n == "IdentifierLiteral"@ {
        Option::Some(Rule::Identifier)
    } else {
        Option::None
    }
}

/// Maps a rule name to the rule it denotes, if it names one.
pub fn rule_parser_from_str(rule_name: &str) -> (r: Option<Rule>)
    ensures
        r == rule_of_name(rule_name@),
{
    if str_eq(rule_name, "Expression") {
        Some(Rule::Expression)
    } else if str_eq(rule_name, "Program") {
        Some(Rule::Program)
    } else if str_eq(rule_name, "Literal") {
        Some(Rule::Literal)
    } else if str_eq(rule_name, "FloatLiteral") {
        Some(Rule::FloatLiteral)
    } else if str_eq(rule_name, "IntegerLiteral") {
        Some(Rule::IntegerLiteral)
    } else if str_eq(rule_name, "CharLiteral") {
        Some(Rule::CharLiteral)
    } else if str_eq(rule_name, "BooleanLiteral") {
        Some(Rule::BooleanLiteral)
    } else if str_eq(rule_name, "StringLiteral") {
        Some(Rule::StringLiteral)
    } else if str_eq(rule_name, "IdentifierLiteral") {
        Some(Rule::Identifier)
    } else {
        None
    }
}

/// Parses source text as a single expression covering the whole text.
pub fn parse_expr(input: &str) -> (r: Result<Expr, SyntaxError>)
    ensures
        match r {
            Result::Ok(ref e) => grammar::p_whole_expression(input@) == Option::Some(view_expr(*e)),
            Result::Err(ref err) => grammar::p_whole_expression(input@) is None && err.location
                <= input@.len(),
        },
{
    let src = str_chars(input);
    let n = src.len();
    let i = x_ws(&src, 0);
    match x_expression(&src, i) {
        Some((j, e)) => {
            let k = x_ws(&src, j);
            if k == n {
                Ok(e)
            } else {
                Err(SyntaxError { location: k })
            }
        },
        None => Err(SyntaxError { location: i }),
    }
}

} // verus!
