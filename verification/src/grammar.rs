//! The grammar, stated mathematically: a deterministic recursive-descent
//! reading of the surface syntax over a character sequence. Each function
//! reads one production at a position and yields the position after the
//! match, together with the syntax it denotes; `None` is a syntax error at
//! that production. Every position handed onward is guarded to stay within
//! the text and to make progress, which keeps the definitions well founded.
//! The executable parser is verified against these definitions.
use vstd::prelude::*;

use crate::ast::AbsExpr;
use crate::ast::AbsFnCall;
use crate::ast::AbsLit;
use crate::ast::AbsStatement;
use crate::ast::AbsUnary;
use crate::ast::AbsVariableDecl;
use crate::ast::ArithOp;
use crate::ast::CmpOp;
use crate::ast::LogicOp;
use crate::text::is_digit;
use crate::text::is_ident_cont;
use crate::text::is_letter;
use crate::text::is_space;

verus! {

// ---------------------------------------------------------------------------
// Scanning helpers
// ---------------------------------------------------------------------------
/// The position after the run of whitespace starting at `i`.
pub open spec fn ws_end(s: Seq<char>, i: int) -> int
    decreases s.len() - i,
{
    if 0 <= i < s.len() && is_space(s[i]) {
        ws_end(s, i + 1)
    } else {
        i
    }
}

/// The position after the run of identifier characters starting at `i`.
pub open spec fn ident_end(s: Seq<char>, i: int) -> int
    decreases s.len() - i,
{
    if 0 <= i < s.len() && is_ident_cont(s[i]) {
        ident_end(s, i + 1)
    } else {
        i
    }
}

/// The position after the run of digits starting at `i`.
pub open spec fn digits_end(s: Seq<char>, i: int) -> int
    decreases s.len() - i,
{
    if 0 <= i < s.len() && is_digit(s[i]) {
        digits_end(s, i + 1)
    } else {
        i
    }
}

/// Digit runs stay within the text.
pub proof fn lemma_digits_end(s: Seq<char>, i: int)
    requires
        0 <= i <= s.len(),
    ensures
        i <= digits_end(s, i) <= s.len(),
    decreases s.len() - i,
{
    if i < s.len() && is_digit(s[i]) {
        lemma_digits_end(s, i + 1);
    }
}

// ---------------------------------------------------------------------------
// Identifiers and keywords
// ---------------------------------------------------------------------------
/// The reserved words, which an identifier may not be.
pub open spec fn is_keyword(w: Seq<char>) -> bool {
    w == "let"@ || w == "if"@ || w == "elif"@ || w == "else"@ || w == "fn"@ || w == "pub"@ || w
        == "struct"@ || w == "enum"@ || w == "true"@ || w == "false"@ || w == "and"@ || w == "or"@
        || w == "not"@ || w == "for"@
}

/// A character that may start an identifier (after the optional leading
/// `@`).
pub open spec fn is_ident_start(c: char) -> bool {
    is_letter(c) || c == '_'
}

/// An identifier: an optional leading `@`, a letter or underscore, then
/// letters, digits and underscores — excluding the reserved words.
pub open spec fn p_identifier(s: Seq<char>, i: int) -> Option<(int, Seq<char>)> {
    if 0 <= i < s.len() && s[i] == '@' {
        if i + 1 < s.len() && is_ident_start(s[i + 1]) {
            let j = ident_end(s, i + 2);
            Option::Some((j, s.subrange(i, j)))
        } else {
            Option::None
        }
    } else if 0 <= i < s.len() && is_ident_start(s[i]) {
        let j = ident_end(s, i + 1);
        let w = s.subrange(i, j);
        if is_keyword(w) {
            Option::None
        } else {
            Option::Some((j, w))
        }
    } else {
        Option::None
    }
}

// ---------------------------------------------------------------------------
// Literals
// ---------------------------------------------------------------------------
/// An integer literal: a digit group, then further digit groups each
/// preceded by a single underscore. No leading, trailing or doubled
/// underscores.
pub open spec fn int_lit_end(s: Seq<char>, i: int) -> Option<int> {
    if 0 <= i < s.len() && is_digit(s[i]) {
        Option::Some(int_groups_end(s, digits_end(s, i)))
    } else {
        Option::None
    }
}

/// Further `_digits` groups after an initial digit run ending at `i`.
pub open spec fn int_groups_end(s: Seq<char>, i: int) -> int
    decreases s.len() - i,
{
    if 0 <= i && i + 1 < s.len() && s[i] == '_' && is_digit(s[i + 1]) {
        let j = digits_end(s, i + 1);
        if j > i && j <= s.len() {
            int_groups_end(s, j)
        } else {
            i
        }
    } else {
        i
    }
}

/// Underscore groups stay within the text.
pub proof fn lemma_int_groups_end(s: Seq<char>, i: int)
    requires
        0 <= i <= s.len(),
    ensures
        i <= int_groups_end(s, i) <= s.len(),
    decreases s.len() - i,
{
    if i + 1 < s.len() && s[i] == '_' && is_digit(s[i + 1]) {
        lemma_digits_end(s, i + 1);
        let j = digits_end(s, i + 1);
        if j > i && j <= s.len() {
            lemma_int_groups_end(s, j);
        }
    }
}

/// An integer-literal match stays within the text and consumes something.
pub proof fn lemma_int_lit_end(s: Seq<char>, i: int)
    requires
        0 <= i <= s.len(),
    ensures
        match int_lit_end(s, i) {
            Option::Some(j) => i < j <= s.len(),
            Option::None => true,
        },
{
    if i < s.len() && is_digit(s[i]) {
        lemma_digits_end(s, i + 1);
        assert(digits_end(s, i) == digits_end(s, i + 1));
        lemma_int_groups_end(s, digits_end(s, i));
        assert(digits_end(s, i) > i);
    }
}

/// The digits of a literal, with the underscores removed.
pub open spec fn strip_underscores(s: Seq<char>) -> Seq<char>
    decreases s.len(),
{
    if s.len() == 0 {
        Seq::empty()
    } else if s.last() == '_' {
        strip_underscores(s.drop_last())
    } else {
        strip_underscores(s.drop_last()).push(s.last())
    }
}

/// Every character up to the end of a digit run is a digit.
pub proof fn lemma_digits_end_chars(s: Seq<char>, i: int)
    requires
        0 <= i <= s.len(),
    ensures
        forall|k: int| i <= k < digits_end(s, i) ==> is_digit(s[k]),
    decreases s.len() - i,
{
    lemma_digits_end(s, i);
    if i < s.len() && is_digit(s[i]) {
        lemma_digits_end_chars(s, i + 1);
    }
}

/// Every character of the underscore groups is a digit or an underscore.
pub proof fn lemma_int_groups_chars(s: Seq<char>, i: int)
    requires
        0 <= i <= s.len(),
    ensures
        forall|k: int| i <= k < int_groups_end(s, i) ==> is_digit(s[k]) || s[k] == '_',
    decreases s.len() - i,
{
    lemma_int_groups_end(s, i);
    if i + 1 < s.len() && s[i] == '_' && is_digit(s[i + 1]) {
        lemma_digits_end(s, i + 1);
        let j = digits_end(s, i + 1);
        if j > i && j <= s.len() {
            lemma_digits_end_chars(s, i + 1);
            lemma_int_groups_chars(s, j);
        }
    }
}

/// The matched text of an integer literal starts with a digit and holds
/// only digits and underscores.
pub proof fn lemma_int_lit_chars(s: Seq<char>, i: int)
    requires
        0 <= i <= s.len(),
        int_lit_end(s, i) is Some,
    ensures
        i < int_lit_end(s, i)->Some_0 <= s.len(),
        is_digit(s[i]),
        forall|k: int|
            i <= k < int_lit_end(s, i)->Some_0 ==> is_digit(s[k]) || s[k] == '_',
{
    lemma_int_lit_end(s, i);
    let d = digits_end(s, i);
    lemma_digits_end(s, i);
    lemma_digits_end_chars(s, i);
    lemma_int_groups_chars(s, d);
    lemma_int_groups_end(s, d);
}

/// Removing the underscores from digit-and-underscore text that starts
/// with a digit leaves non-empty, digits-only text.
pub proof fn lemma_strip_digits(s: Seq<char>)
    requires
        s.len() > 0,
        is_digit(s[0]),
        forall|k: int| 0 <= k < s.len() ==> is_digit(s[k]) || s[k] == '_',
    ensures
        strip_underscores(s).len() > 0,
        crate::text::all_digits(strip_underscores(s)),
    decreases s.len(),
{
    if s.len() == 1 {
        assert(s.last() == s[0]);
        assert(strip_underscores(s.drop_last()) =~= Seq::<char>::empty());
    } else {
        assert(s.drop_last()[0] == s[0]);
        assert(forall|k: int|
            0 <= k < s.drop_last().len() ==> is_digit(s.drop_last()[k]) || s.drop_last()[k]
                == '_');
        lemma_strip_digits(s.drop_last());
        let pre = strip_underscores(s.drop_last());
        if s.last() != '_' {
            assert(is_digit(s.last()));
            assert(forall|k: int|
                0 <= k < pre.push(s.last()).len() ==> is_digit(pre.push(s.last())[k]));
        }
    }
}

/// A digit run over digits-only text reaches the end of the text.
pub proof fn lemma_digits_end_all(s: Seq<char>, i: int)
    requires
        0 <= i <= s.len(),
        forall|k: int| i <= k < s.len() ==> is_digit(s[k]),
    ensures
        digits_end(s, i) == s.len(),
    decreases s.len() - i,
{
    if i < s.len() {
        lemma_digits_end_all(s, i + 1);
    }
}

/// Removing underscores from text without underscores changes nothing.
pub proof fn lemma_strip_no_underscores(s: Seq<char>)
    requires
        forall|k: int| 0 <= k < s.len() ==> s[k] != '_',
    ensures
        strip_underscores(s) == s,
    decreases s.len(),
{
    if s.len() > 0 {
        assert(forall|k: int| 0 <= k < s.drop_last().len() ==> s.drop_last()[k] != '_');
        lemma_strip_no_underscores(s.drop_last());
        assert(strip_underscores(s) =~= s);
    } else {
        assert(strip_underscores(s) =~= s);
    }
}

/// A float literal: an integer literal, a dot, an integer literal.
pub open spec fn float_lit_end(s: Seq<char>, i: int) -> Option<int> {
    match int_lit_end(s, i) {
        Option::Some(j) => {
            if j < s.len() && s[j] == '.' {
                match int_lit_end(s, j + 1) {
                    Option::Some(k) => Option::Some(k),
                    Option::None => Option::None,
                }
            } else {
                Option::None
            }
        },
        Option::None => Option::None,
    }
}

/// A string literal: double quotes around any characters but a double
/// quote; no escape processing.
pub open spec fn string_body_end(s: Seq<char>, i: int) -> int
    decreases s.len() - i,
{
    if 0 <= i < s.len() && s[i] != '"' {
        string_body_end(s, i + 1)
    } else {
        i
    }
}

/// A string literal at `i`: the position after the closing quote and the
/// contents between the quotes.
pub open spec fn p_string_lit(s: Seq<char>, i: int) -> Option<(int, Seq<char>)> {
    if 0 <= i < s.len() && s[i] == '"' {
        let j = string_body_end(s, i + 1);
        if j < s.len() {
            Option::Some((j + 1, s.subrange(i + 1, j)))
        } else {
            Option::None
        }
    } else {
        Option::None
    }
}

/// A char literal: single quotes around exactly one character; `''` is
/// invalid.
pub open spec fn p_char_lit(s: Seq<char>, i: int) -> Option<(int, char)> {
    if 0 <= i && i + 2 < s.len() && s[i] == '\'' && s[i + 1] != '\'' && s[i + 2] == '\'' {
        Option::Some((i + 3, s[i + 1]))
    } else {
        Option::None
    }
}

/// Whether the word `w` stands at `i` followed by a non-identifier
/// character (or the end of text).
pub open spec fn word_at(s: Seq<char>, i: int, w: Seq<char>) -> bool {
    &&& 0 <= i
    &&& i + w.len() <= s.len()
    &&& s.subrange(i, i + w.len()) == w
    &&& (i + w.len() == s.len() || !is_ident_cont(s[i + w.len()]))
}

/// A boolean literal: exactly `true` or `false`, not running into an
/// identifier.
pub open spec fn p_bool_lit(s: Seq<char>, i: int) -> Option<(int, bool)> {
    if word_at(s, i, "true"@) {
        Option::Some((i + 4, true))
    } else if word_at(s, i, "false"@) {
        Option::Some((i + 5, false))
    } else {
        Option::None
    }
}

/// A literal term: floats are tried before integers, so that `123.4` is not
/// read as `123` with a remainder. An integer literal whose value exceeds
/// the 64-bit range is a syntax error.
pub open spec fn p_literal(s: Seq<char>, i: int) -> Option<(int, AbsLit)> {
    match float_lit_end(s, i) {
        Option::Some(j) => Option::Some((j, AbsLit::Float(s.subrange(i, j)))),
        Option::None => match int_lit_end(s, i) {
            Option::Some(j) => {
                let digits = strip_underscores(s.subrange(i, j));
                if crate::text::dec_val(digits) <= i64::MAX {
                    Option::Some((j, AbsLit::Int(crate::text::dec_val(digits) as i64)))
                } else {
                    Option::None
                }
            },
            Option::None => match p_string_lit(s, i) {
                Option::Some((j, t)) => Option::Some((j, AbsLit::String(t))),
                Option::None => match p_char_lit(s, i) {
                    Option::Some((j, c)) => Option::Some((j, AbsLit::Char(c))),
                    Option::None => match p_bool_lit(s, i) {
                        Option::Some((j, b)) => Option::Some((j, AbsLit::Bool(b))),
                        Option::None => Option::None,
                    },
                },
            },
        },
    }
}

// ---------------------------------------------------------------------------
// Operators
// ---------------------------------------------------------------------------
/// The arithmetic operator at `i`, if any.
pub open spec fn arith_op_at(s: Seq<char>, i: int) -> Option<(int, ArithOp)> {
    if 0 <= i < s.len() {
        if s[i] == '+' {
            Option::Some((i + 1, ArithOp::Add))
        } else if s[i] == '-' {
            Option::Some((i + 1, ArithOp::Sub))
        } else if s[i] == '*' {
            Option::Some((i + 1, ArithOp::Mul))
        } else if s[i] == '/' {
            Option::Some((i + 1, ArithOp::Div))
        } else if s[i] == '%' {
            Option::Some((i + 1, ArithOp::Mod))
        } else if s[i] == '^' {
            Option::Some((i + 1, ArithOp::Pow))
        } else {
            Option::None
        }
    } else {
        Option::None
    }
}

/// An arithmetic operator must not begin a compound assignment (`+=`).
pub open spec fn arith_op_here(s: Seq<char>, i: int) -> Option<(int, ArithOp)> {
    match arith_op_at(s, i) {
        Option::Some((j, op)) => {
            if j < s.len() && s[j] == '=' {
                Option::None
            } else {
                Option::Some((j, op))
            }
        },
        Option::None => Option::None,
    }
}

/// The precedence level of an arithmetic operator, lowest first.
pub open spec fn prec(op: ArithOp) -> int {
    match op {
        ArithOp::Add => 0,
        ArithOp::Sub => 0,
        ArithOp::Mul => 1,
        ArithOp::Div => 1,
        ArithOp::Mod => 1,
        ArithOp::Pow => 2,
    }
}

/// The comparison operator at `i`, if any; two-character operators first.
pub open spec fn cmp_op_at(s: Seq<char>, i: int) -> Option<(int, CmpOp)> {
    if 0 <= i && i + 1 < s.len() && s[i] == '=' && s[i + 1] == '=' {
        Option::Some((i + 2, CmpOp::EQ))
    } else if 0 <= i && i + 1 < s.len() && s[i] == '!' && s[i + 1] == '=' {
        Option::Some((i + 2, CmpOp::NE))
    } else if 0 <= i && i + 1 < s.len() && s[i] == '<' && s[i + 1] == '=' {
        Option::Some((i + 2, CmpOp::LE))
    } else if 0 <= i && i + 1 < s.len() && s[i] == '>' && s[i + 1] == '=' {
        Option::Some((i + 2, CmpOp::GE))
    } else if 0 <= i < s.len() && s[i] == '<' {
        Option::Some((i + 1, CmpOp::LT))
    } else if 0 <= i < s.len() && s[i] == '>' {
        Option::Some((i + 1, CmpOp::GT))
    } else {
        Option::None
    }
}

/// The boolean connective at `i`, if any: the words `and` or `or`.
pub open spec fn logic_op_at(s: Seq<char>, i: int) -> Option<(int, LogicOp)> {
    if word_at(s, i, "and"@) {
        Option::Some((i + 3, LogicOp::And))
    } else if word_at(s, i, "or"@) {
        Option::Some((i + 2, LogicOp::Or))
    } else {
        Option::None
    }
}

// ---------------------------------------------------------------------------
// Expressions: terms and precedence climbing
// ---------------------------------------------------------------------------
/// A term: a literal, a call, a plain name, a prefix operator applied to
/// the immediately following term, or a parenthesized expression.
pub open spec fn p_term(s: Seq<char>, i: int) -> Option<(int, AbsExpr)>
    decreases s.len() - i, 1int,
{
    if i < 0 || i > s.len() {
        Option::None
    } else {
        match p_literal(s, i) {
            Option::Some((j, l)) => Option::Some((j, AbsExpr::Lit(l))),
            Option::None => {
                if word_at(s, i, "not"@) {
                    let k = ws_end(s, i + 3);
                    if i + 3 <= k <= s.len() {
                        match p_term(s, k) {
                            Option::Some((j, t)) => Option::Some(
                                (j, AbsExpr::Unary(Box::new(AbsUnary::Not(t)))),
                            ),
                            Option::None => Option::None,
                        }
                    } else {
                        Option::None
                    }
                } else if i < s.len() && s[i] == '-' {
                    let k = ws_end(s, i + 1);
                    if i + 1 <= k <= s.len() {
                        match p_term(s, k) {
                            Option::Some((j, t)) => Option::Some(
                                (j, AbsExpr::Unary(Box::new(AbsUnary::Minus(t)))),
                            ),
                            Option::None => Option::None,
                        }
                    } else {
                        Option::None
                    }
                } else if i < s.len() && s[i] == '(' {
                    let k = ws_end(s, i + 1);
                    if i + 1 <= k <= s.len() {
                        match p_expression(s, k) {
                            Option::Some((j, e)) => {
                                if k < j <= s.len() {
                                    let m = ws_end(s, j);
                                    if m < s.len() && s[m] == ')' {
                                        Option::Some((m + 1, AbsExpr::Paren(Box::new(e))))
                                    } else {
                                        Option::None
                                    }
                                } else {
                                    Option::None
                                }
                            },
                            Option::None => Option::None,
                        }
                    } else {
                        Option::None
                    }
                } else {
                    match p_identifier(s, i) {
                        Option::Some((j, name)) => {
                            if i < j <= s.len() {
                                let k = ws_end(s, j);
                                if j <= k && k < s.len() && s[k] == '(' {
                                    match p_call_args(s, k + 1) {
                                        Option::Some((m, args)) => Option::Some(
                                            (
                                                m,
                                                AbsExpr::FnCall(
                                                    Box::new(
                                                        AbsFnCall {
                                                            callee: AbsExpr::Id(name),
                                                            params: args,
                                                        },
                                                    ),
                                                ),
                                            ),
                                        ),
                                        Option::None => Option::None,
                                    }
                                } else {
                                    Option::Some((j, AbsExpr::Id(name)))
                                }
                            } else {
                                Option::None
                            }
                        },
                        Option::None => Option::None,
                    }
                }
            },
        }
    }
}

/// The arguments of a call, read from just after the opening parenthesis:
/// zero or more comma-separated expressions, an optional trailing comma,
/// then the closing parenthesis.
pub open spec fn p_call_args(s: Seq<char>, i: int) -> Option<(int, Seq<AbsExpr>)>
    decreases s.len() - i, 9int,
{
    if i < 0 || i > s.len() {
        Option::None
    } else {
        let j = ws_end(s, i);
        if i <= j && j < s.len() && s[j] == ')' {
            Option::Some((j + 1, Seq::empty()))
        } else if i <= j <= s.len() {
            match p_expression(s, j) {
                Option::Some((k, e)) => {
                    if j < k <= s.len() {
                        p_more_args(s, k, seq![e])
                    } else {
                        Option::None
                    }
                },
                Option::None => Option::None,
            }
        } else {
            Option::None
        }
    }
}

/// Further call arguments after the first, each preceded by a comma; a
/// trailing comma before the closing parenthesis is allowed.
pub open spec fn p_more_args(s: Seq<char>, i: int, acc: Seq<AbsExpr>) -> Option<
    (int, Seq<AbsExpr>),
>
    decreases s.len() - i, 8int,
{
    if i < 0 || i > s.len() {
        Option::None
    } else {
        let j = ws_end(s, i);
        if i <= j && j < s.len() && s[j] == ')' {
            Option::Some((j + 1, acc))
        } else if i <= j && j < s.len() && s[j] == ',' {
            let k = ws_end(s, j + 1);
            if j + 1 <= k && k < s.len() && s[k] == ')' {
                Option::Some((k + 1, acc))
            } else if j + 1 <= k <= s.len() {
                match p_expression(s, k) {
                    Option::Some((m, e)) => {
                        if k < m <= s.len() {
                            p_more_args(s, m, acc.push(e))
                        } else {
                            Option::None
                        }
                    },
                    Option::None => Option::None,
                }
            } else {
                Option::None
            }
        } else {
            Option::None
        }
    }
}

/// An arithmetic expression by precedence climbing: a term, then operators
/// of precedence at least `minlvl`, folding left for `Add`/`Sub`/`Mul`/
/// `Div`/`Mod` and right for `Pow`.
pub open spec fn p_climb(s: Seq<char>, i: int, minlvl: int) -> Option<(int, AbsExpr)>
    decreases s.len() - i, 3int,
{
    if i < 0 || i > s.len() {
        Option::None
    } else {
        match p_term(s, i) {
            Option::Some((j, t)) => {
                if i < j <= s.len() {
                    p_climb_rest(s, j, t, minlvl)
                } else {
                    Option::None
                }
            },
            Option::None => Option::None,
        }
    }
}

/// The climbing loop: while the next operator is at or above `minlvl`,
/// read the right-hand side one level up (same level for the
/// right-associative `Pow`) and fold.
pub open spec fn p_climb_rest(s: Seq<char>, i: int, acc: AbsExpr, minlvl: int) -> Option<
    (int, AbsExpr),
>
    decreases s.len() - i, 2int,
{
    if i < 0 || i > s.len() {
        Option::None
    } else {
        let j = ws_end(s, i);
        if i <= j <= s.len() {
            match arith_op_here(s, j) {
                Option::Some((j2, op)) => {
                    if prec(op) < minlvl {
                        Option::Some((i, acc))
                    } else {
                        let k = ws_end(s, j2);
                        let sub = if prec(op) == 2 {
                            2int
                        } else {
                            prec(op) + 1
                        };
                        if i < k <= s.len() {
                            match p_climb(s, k, sub) {
                                Option::Some((m, rhs)) => {
                                    if k < m <= s.len() {
                                        p_climb_rest(
                                            s,
                                            m,
                                            AbsExpr::Arith(
                                                Box::new(
                                                    crate::ast::AbsArithExpr {
                                                        left: acc,
                                                        op: op,
                                                        right: rhs,
                                                    },
                                                ),
                                            ),
                                            minlvl,
                                        )
                                    } else {
                                        Option::None
                                    }
                                },
                                Option::None => Option::Some((i, acc)),
                            }
                        } else {
                            Option::None
                        }
                    }
                },
                Option::None => Option::Some((i, acc)),
            }
        } else {
            Option::None
        }
    }
}

/// A mathematical expression: precedence climbing from the lowest level.
pub open spec fn p_math(s: Seq<char>, i: int) -> Option<(int, AbsExpr)>
    decreases s.len() - i, 4int,
{
    p_climb(s, i, 0)
}

/// A comparison: a mathematical expression, optionally compared once with
/// a second one.
pub open spec fn p_comparison(s: Seq<char>, i: int) -> Option<(int, AbsExpr)>
    decreases s.len() - i, 5int,
{
    if i < 0 || i > s.len() {
        Option::None
    } else {
        match p_math(s, i) {
            Option::Some((j, left)) => {
                if i <= j <= s.len() {
                    let k = ws_end(s, j);
                    if j <= k <= s.len() {
                        match cmp_op_at(s, k) {
                            Option::Some((k2, op)) => {
                                let m = ws_end(s, k2);
                                if j < m <= s.len() {
                                    match p_math(s, m) {
                                        Option::Some((q, right)) => Option::Some(
                                            (
                                                q,
                                                AbsExpr::Cmp(
                                                    Box::new(
                                                        crate::ast::AbsCmpExpr {
                                                            left: left,
                                                            op: op,
                                                            right: right,
                                                        },
                                                    ),
                                                ),
                                            ),
                                        ),
                                        Option::None => Option::Some((j, left)),
                                    }
                                } else {
                                    Option::None
                                }
                            },
                            Option::None => Option::Some((j, left)),
                        }
                    } else {
                        Option::None
                    }
                } else {
                    Option::None
                }
            },
            Option::None => Option::None,
        }
    }
}

/// A logical expression: comparisons joined by `and`/`or`, folded left.
pub open spec fn p_logic(s: Seq<char>, i: int) -> Option<(int, AbsExpr)>
    decreases s.len() - i, 7int,
{
    if i < 0 || i > s.len() {
        Option::None
    } else {
        match p_comparison(s, i) {
            Option::Some((j, first)) => {
                if i <= j <= s.len() {
                    p_logic_rest(s, j, first)
                } else {
                    Option::None
                }
            },
            Option::None => Option::None,
        }
    }
}

/// The fold of further `and`/`or` comparisons onto the left operand.
pub open spec fn p_logic_rest(s: Seq<char>, i: int, acc: AbsExpr) -> Option<(int, AbsExpr)>
    decreases s.len() - i, 6int,
{
    if i < 0 || i > s.len() {
        Option::None
    } else {
        let j = ws_end(s, i);
        if i <= j <= s.len() {
            match logic_op_at(s, j) {
                Option::Some((j2, op)) => {
                    let k = ws_end(s, j2);
                    if i < k <= s.len() {
                        match p_comparison(s, k) {
                            Option::Some((m, right)) => {
                                if k < m <= s.len() {
                                    p_logic_rest(
                                        s,
                                        m,
                                        AbsExpr::Logic(
                                            Box::new(
                                                crate::ast::AbsLogicExpr {
                                                    left: acc,
                                                    op: op,
                                                    right: right,
                                                },
                                            ),
                                        ),
                                    )
                                } else {
                                    Option::None
                                }
                            },
                            Option::None => Option::Some((i, acc)),
                        }
                    } else {
                        Option::None
                    }
                },
                Option::None => Option::Some((i, acc)),
            }
        } else {
            Option::None
        }
    }
}

/// An expression: the logical level is the lowest-binding one.
pub open spec fn p_expression(s: Seq<char>, i: int) -> Option<(int, AbsExpr)>
    decreases s.len() - i, 8int,
{
    p_logic(s, i)
}

// ---------------------------------------------------------------------------
// Statements and programs
// ---------------------------------------------------------------------------
/// A type annotation: a colon, then a type name.
pub open spec fn p_type_annotation(s: Seq<char>, i: int) -> Option<(int, Seq<char>)> {
    if 0 <= i < s.len() && s[i] == ':' {
        let j = ws_end(s, i + 1);
        if i + 1 <= j <= s.len() {
            p_identifier(s, j)
        } else {
            Option::None
        }
    } else {
        Option::None
    }
}

/// The assignment operator at `i` that the evaluator gives meaning to:
/// plain `=` (not the start of `==`) or one of the six compound forms.
pub open spec fn assign_op_sem(s: Seq<char>, i: int) -> Option<(int, Option<ArithOp>)> {
    if 0 <= i && i + 1 < s.len() && s[i + 1] == '=' && (s[i] == '+' || s[i] == '-' || s[i] == '*'
        || s[i] == '/' || s[i] == '%' || s[i] == '^') {
        match arith_op_at(s, i) {
            Option::Some((_, op)) => Option::Some((i + 2, Option::Some(op))),
            Option::None => Option::None,
        }
    } else if 0 <= i < s.len() && s[i] == '=' && !(i + 1 < s.len() && s[i + 1] == '=') {
        Option::Some((i + 1, Option::None))
    } else {
        Option::None
    }
}

/// Any assignment operator the grammar recognizes: the meaningful ones,
/// plus the bitwise and shift forms that are accepted syntactically.
pub open spec fn assign_op_any(s: Seq<char>, i: int) -> Option<int> {
    match assign_op_sem(s, i) {
        Option::Some((j, _)) => Option::Some(j),
        Option::None => {
            if 0 <= i && i + 1 < s.len() && s[i + 1] == '=' && (s[i] == '&' || s[i] == '|') {
                Option::Some((i + 2))
            } else if 0 <= i && i + 2 < s.len() && s[i + 2] == '=' && ((s[i] == '<' && s[i + 1]
                == '<') || (s[i] == '>' && s[i + 1] == '>')) {
                Option::Some((i + 3))
            } else {
                Option::None
            }
        },
    }
}

/// A `let` statement: `let name (: type)? = expression ;`.
pub open spec fn p_let_stmt(s: Seq<char>, i: int) -> Option<(int, AbsStatement)>
    decreases s.len() - i, 9int,
{
    if i < 0 || i > s.len() || !word_at(s, i, "let"@) {
        Option::None
    } else {
        let j = ws_end(s, i + 3);
        if i + 3 <= j <= s.len() {
            match p_identifier(s, j) {
                Option::Some((k, name)) => {
                    if j < k <= s.len() {
                        let j2 = ws_end(s, k);
                        if k <= j2 <= s.len() {
                            let (anno, j4) = if j2 < s.len() && s[j2] == ':' {
                                match p_type_annotation(s, j2) {
                                    Option::Some((k2, ty)) => {
                                        (Option::Some(Option::Some(ty)), ws_end(s, k2))
                                    },
                                    Option::None => (Option::None, j2),
                                }
                            } else {
                                (Option::Some(Option::<Seq<char>>::None), j2)
                            };
                            match anno {
                                Option::None => Option::None,
                                Option::Some(ty) => {
                                    if j2 <= j4 <= s.len() && j4 < s.len() && s[j4] == '='
                                        && assign_op_sem(s, j4) == Option::Some(
                                        (j4 + 1, Option::<ArithOp>::None),
                                    ) {
                                        let j5 = ws_end(s, j4 + 1);
                                        if j4 < j5 <= s.len() || j5 == j4 + 1 {
                                            match p_expression(s, j5) {
                                                Option::Some((m, e)) => {
                                                    if j5 <= m <= s.len() {
                                                        let j6 = ws_end(s, m);
                                                        if m <= j6 && j6 < s.len() && s[j6]
                                                            == ';' {
                                                            Option::Some(
                                                                (
                                                                    j6 + 1,
                                                                    AbsStatement::Expr(
                                                                        AbsExpr::VarDecl(
                                                                            Box::new(
                                                                                AbsVariableDecl {
                                                                                    name: name,
                                                                                    type_annotation: ty,
                                                                                    expr: e,
                                                                                },
                                                                            ),
                                                                        ),
                                                                    ),
                                                                ),
                                                            )
                                                        } else {
                                                            Option::None
                                                        }
                                                    } else {
                                                        Option::None
                                                    }
                                                },
                                                Option::None => Option::None,
                                            }
                                        } else {
                                            Option::None
                                        }
                                    } else {
                                        Option::None
                                    }
                                },
                            }
                        } else {
                            Option::None
                        }
                    } else {
                        Option::None
                    }
                },
                Option::None => Option::None,
            }
        } else {
            Option::None
        }
    }
}

/// An assignment statement: `name op= expression ;`.
pub open spec fn p_assign_stmt(s: Seq<char>, i: int) -> Option<(int, AbsStatement)>
    decreases s.len() - i, 9int,
{
    if i < 0 || i > s.len() {
        Option::None
    } else {
        match p_identifier(s, i) {
            Option::Some((j, name)) => {
                if i < j <= s.len() {
                    let j2 = ws_end(s, j);
                    if j <= j2 <= s.len() {
                        match assign_op_sem(s, j2) {
                            Option::Some((k, op)) => {
                                let k2 = ws_end(s, k);
                                if i < k2 <= s.len() {
                                    match p_expression(s, k2) {
                                        Option::Some((m, e)) => {
                                            if k2 <= m <= s.len() {
                                                let j3 = ws_end(s, m);
                                                if m <= j3 && j3 < s.len() && s[j3] == ';' {
                                                    Option::Some(
                                                        (
                                                            j3 + 1,
                                                            AbsStatement::Expr(
                                                                AbsExpr::Assign(
                                                                    Box::new(
                                                                        crate::ast::AbsAssign {
                                                                            destination: AbsExpr::Id(name),
                                                                            operator: op,
                                                                            value: e,
                                                                        },
                                                                    ),
                                                                ),
                                                            ),
                                                        ),
                                                    )
                                                } else {
                                                    Option::None
                                                }
                                            } else {
                                                Option::None
                                            }
                                        },
                                        Option::None => Option::None,
                                    }
                                } else {
                                    Option::None
                                }
                            },
                            Option::None => Option::None,
                        }
                    } else {
                        Option::None
                    }
                } else {
                    Option::None
                }
            },
            Option::None => Option::None,
        }
    }
}

/// An expression statement: `expression ;`.
pub open spec fn p_expr_stmt(s: Seq<char>, i: int) -> Option<(int, AbsStatement)>
    decreases s.len() - i, 9int,
{
    if i < 0 || i > s.len() {
        Option::None
    } else {
        match p_expression(s, i) {
            Option::Some((j, e)) => {
                if i <= j <= s.len() {
                    let k = ws_end(s, j);
                    if j <= k && k < s.len() && s[k] == ';' {
                        Option::Some((k + 1, AbsStatement::Expr(e)))
                    } else {
                        Option::None
                    }
                } else {
                    Option::None
                }
            },
            Option::None => Option::None,
        }
    }
}

/// One statement: a `let` statement, an assignment, or an expression
/// statement, tried in that order.
pub open spec fn p_statement(s: Seq<char>, i: int) -> Option<(int, AbsStatement)>
    decreases s.len() - i, 10int,
{
    match p_let_stmt(s, i) {
        Option::Some(r) => Option::Some(r),
        Option::None => match p_assign_stmt(s, i) {
            Option::Some(r) => Option::Some(r),
            Option::None => p_expr_stmt(s, i),
        },
    }
}

/// The statements of a program from `i` to the end of the text, whitespace
/// between them, appended to the statements read so far.
pub open spec fn p_stmts(s: Seq<char>, i: int, acc: Seq<AbsStatement>) -> Option<
    (int, Seq<AbsStatement>),
>
    decreases s.len() - i, 11int,
{
    if i < 0 || i > s.len() {
        Option::None
    } else {
        let j = ws_end(s, i);
        if i <= j <= s.len() {
            if j == s.len() {
                Option::Some((j, acc))
            } else {
                match p_statement(s, j) {
                    Option::Some((k, st)) => {
                        if i < k <= s.len() {
                            p_stmts(s, k, acc.push(st))
                        } else {
                            Option::None
                        }
                    },
                    Option::None => Option::None,
                }
            }
        } else {
            Option::None
        }
    }
}

/// When the statement reader succeeds, it has consumed the entire text.
pub proof fn lemma_p_stmts_end(s: Seq<char>, i: int, acc: Seq<AbsStatement>)
    ensures
        match p_stmts(s, i, acc) {
            Option::Some(p) => p.0 == s.len(),
            Option::None => true,
        },
    decreases s.len() - i,
{
    if 0 <= i <= s.len() {
        let j = ws_end(s, i);
        if i <= j <= s.len() && j != s.len() {
            match p_statement(s, j) {
                Option::Some((k, st)) => {
                    if i < k <= s.len() {
                        lemma_p_stmts_end(s, k, acc.push(st));
                    }
                },
                Option::None => {},
            }
        }
    }
}

/// A whole program: statements covering the entire text.
pub open spec fn p_program(s: Seq<char>) -> Option<Seq<AbsStatement>> {
    match p_stmts(s, 0, Seq::empty()) {
        Option::Some((_, items)) => Option::Some(items),
        Option::None => Option::None,
    }
}

/// A whole expression: one expression covering the entire text, with
/// whitespace allowed around it.
pub open spec fn p_whole_expression(s: Seq<char>) -> Option<AbsExpr> {
    let i = ws_end(s, 0);
    if 0 <= i <= s.len() {
        match p_expression(s, i) {
            Option::Some((j, e)) => {
                if 0 <= j <= s.len() && ws_end(s, j) == s.len() {
                    Option::Some(e)
                } else {
                    Option::None
                }
            },
            Option::None => Option::None,
        }
    } else {
        Option::None
    }
}

/// A whole arithmetic expression covering the entire text.
pub open spec fn p_whole_math(s: Seq<char>) -> Option<AbsExpr> {
    let i = ws_end(s, 0);
    if 0 <= i <= s.len() {
        match p_math(s, i) {
            Option::Some((j, e)) => {
                if 0 <= j <= s.len() && ws_end(s, j) == s.len() {
                    Option::Some(e)
                } else {
                    Option::None
                }
            },
            Option::None => Option::None,
        }
    } else {
        Option::None
    }
}

// ---------------------------------------------------------------------------
// Pure recognition, for matching single rules against text
// ---------------------------------------------------------------------------
/// An assignment statement as the grammar recognizes it, with any of the
/// assignment operators, meaningful or not.
pub open spec fn assign_stmt_any_end(s: Seq<char>, i: int) -> Option<int>
    decreases s.len() - i, 9int,
{
    if i < 0 || i > s.len() {
        Option::None
    } else {
        match p_identifier(s, i) {
            Option::Some((j, _)) => {
                if i < j <= s.len() {
                    let j2 = ws_end(s, j);
                    if j <= j2 <= s.len() {
                        match assign_op_any(s, j2) {
                            Option::Some(k) => {
                                let k2 = ws_end(s, k);
                                if i < k2 <= s.len() {
                                    match p_expression(s, k2) {
                                        Option::Some((m, _)) => {
                                            if k2 <= m <= s.len() {
                                                let j3 = ws_end(s, m);
                                                if m <= j3 && j3 < s.len() && s[j3] == ';' {
                                                    Option::Some(j3 + 1)
                                                } else {
                                                    Option::None
                                                }
                                            } else {
                                                Option::None
                                            }
                                        },
                                        Option::None => Option::None,
                                    }
                                } else {
                                    Option::None
                                }
                            },
                            Option::None => Option::None,
                        }
                    } else {
                        Option::None
                    }
                } else {
                    Option::None
                }
            },
            Option::None => Option::None,
        }
    }
}

/// One `name: type` pair of a declared-parameter list.
pub open spec fn param_pair_end(s: Seq<char>, i: int) -> Option<int> {
    match p_identifier(s, i) {
        Option::Some((j, _)) => {
            let j2 = ws_end(s, j);
            if 0 <= j2 && j2 < s.len() && s[j2] == ':' {
                let j3 = ws_end(s, j2 + 1);
                if 0 <= j3 <= s.len() {
                    match p_identifier(s, j3) {
                        Option::Some((k, _)) => Option::Some(k),
                        Option::None => Option::None,
                    }
                } else {
                    Option::None
                }
            } else {
                Option::None
            }
        },
        Option::None => Option::None,
    }
}

/// Further comma-separated pairs of a declared-parameter list; a trailing
/// comma is allowed.
pub open spec fn param_more_end(s: Seq<char>, i: int) -> int
    decreases s.len() - i,
{
    if i < 0 || i > s.len() {
        i
    } else {
        let j = ws_end(s, i);
        if i <= j && j < s.len() && s[j] == ',' {
            let k = ws_end(s, j + 1);
            if j + 1 <= k <= s.len() {
                match param_pair_end(s, k) {
                    Option::Some(q) => {
                        if i < q <= s.len() {
                            param_more_end(s, q)
                        } else {
                            j + 1
                        }
                    },
                    Option::None => j + 1,
                }
            } else {
                j + 1
            }
        } else {
            i
        }
    }
}

/// A declared-parameter list: one or more `name: type` pairs, separated by
/// commas, with an optional trailing comma.
pub open spec fn param_list_end(s: Seq<char>, i: int) -> Option<int> {
    match param_pair_end(s, i) {
        Option::Some(j) => {
            if i < j <= s.len() {
                Option::Some(param_more_end(s, j))
            } else {
                Option::None
            }
        },
        Option::None => Option::None,
    }
}

} // verus!
