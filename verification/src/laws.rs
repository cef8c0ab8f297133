//! Laws of the grammar and of evaluation, stated over the
//! specification functions and proved once for all operand values.

use vstd::prelude::*;
use crate::ast::{spec_leaf, spec_mul_rest, spec_node, spec_parse, AstKind};
use crate::number::{fits, spec_int_digits, spec_render, EvalError, Number};
use crate::parser::spec_run;
use crate::token::TokenKind;

verus! {

/// The decimal digits of a whole number are digits: no decimal point
/// among them.
proof fn lemma_int_digits_no_point(n: nat)
    ensures
        forall|k: int| 0 <= k < spec_int_digits(n).len() ==> spec_int_digits(n)[k] != '.',
    decreases n,
{
    if n < 10 {
        assert(spec_int_digits(n)[0] == crate::number::digit_char(n as int));
    } else {
        lemma_int_digits_no_point(n / 10);
        let pre = spec_int_digits(n / 10);
        let whole = spec_int_digits(n);
        assert(whole == pre.push(crate::number::digit_char((n % 10) as int)));
        assert forall|k: int| 0 <= k < whole.len() implies whole[k] != '.' by {
            if k < pre.len() {
                assert(whole[k] == pre[k]);
            } else {
                assert(whole[k] == crate::number::digit_char((n % 10) as int));
            }
        }
    }
}

/// A whole value renders without a fractional part: no decimal point
/// appears anywhere in its rendering.
pub proof fn lemma_whole_value_renders_without_point(n: int, d: int)
    requires
        fits(n, d),
        (if n < 0 { -n } else { n }) % d == 0,
    ensures
        forall|k: int| 0 <= k < spec_render(n, d).len() ==> spec_render(n, d)[k] != '.',
{
    let a = (if n < 0 { -n } else { n }) as nat;
    lemma_int_digits_no_point(a / (d as nat));
}

/// Multiplication binds tighter than addition: `a + b * c` parses as
/// `a + (b * c)`, for all literal operands.
pub proof fn lemma_precedence(a: Number, b: Number, c: Number)
    ensures
        spec_parse(
            seq![
                TokenKind::NUM(a),
                TokenKind::PLUS,
                TokenKind::NUM(b),
                TokenKind::ASTERISK,
                TokenKind::NUM(c),
            ],
        ) == Ok::<_, EvalError>(
            spec_node(
                AstKind::ADD,
                spec_leaf(a),
                spec_node(AstKind::MUL, spec_leaf(b), spec_leaf(c)),
            ),
        ),
{
    reveal_with_fuel(crate::ast::spec_primary, 10);
    reveal_with_fuel(crate::ast::spec_unary, 10);
    reveal_with_fuel(crate::ast::spec_mul_rest, 10);
    reveal_with_fuel(crate::ast::spec_mul, 10);
    reveal_with_fuel(crate::ast::spec_expr_rest, 10);
    reveal_with_fuel(crate::ast::spec_expr, 10);
    let s = seq![
        TokenKind::NUM(a),
        TokenKind::PLUS,
        TokenKind::NUM(b),
        TokenKind::ASTERISK,
        TokenKind::NUM(c),
    ];
    let bc = spec_node(AstKind::MUL, spec_leaf(b), spec_leaf(c));
    assert(spec_mul_rest(s, 5, bc) == Ok::<_, EvalError>((bc, 5int)));
    assert(spec_mul_rest(s, 3, spec_leaf(b)) == Ok::<_, EvalError>((bc, 5int)));
    assert(spec_mul_rest(s, 1, spec_leaf(a)) == Ok::<_, EvalError>((spec_leaf(a), 1int)));
}

/// Parentheses override precedence: `a * ( b - c )` parses as
/// `a * (b - c)`, for all literal operands.
#[verifier::rlimit(100)]
pub proof fn lemma_grouping(a: Number, b: Number, c: Number)
    ensures
        spec_parse(
            seq![
                TokenKind::NUM(a),
                TokenKind::ASTERISK,
                TokenKind::LPAREN,
                TokenKind::NUM(b),
                TokenKind::MINUS,
                TokenKind::NUM(c),
                TokenKind::RPAREN,
            ],
        ) == Ok::<_, EvalError>(
            spec_node(
                AstKind::MUL,
                spec_leaf(a),
                spec_node(AstKind::SUB, spec_leaf(b), spec_leaf(c)),
            ),
        ),
{
    let s = seq![
        TokenKind::NUM(a),
        TokenKind::ASTERISK,
        TokenKind::LPAREN,
        TokenKind::NUM(b),
        TokenKind::MINUS,
        TokenKind::NUM(c),
        TokenKind::RPAREN,
    ];
    let bc = spec_node(AstKind::SUB, spec_leaf(b), spec_leaf(c));
    let mab = spec_node(AstKind::MUL, spec_leaf(a), bc);
    assert(crate::ast::spec_primary(s, 5) == Ok::<_, EvalError>((spec_leaf(c), 6int)));
    assert(crate::ast::spec_unary(s, 5) == Ok::<_, EvalError>((spec_leaf(c), 6int)));
    assert(spec_mul_rest(s, 6, spec_leaf(c)) == Ok::<_, EvalError>((spec_leaf(c), 6int)));
    assert(crate::ast::spec_mul(s, 5) == Ok::<_, EvalError>((spec_leaf(c), 6int)));
    assert(crate::ast::spec_primary(s, 3) == Ok::<_, EvalError>((spec_leaf(b), 4int)));
    assert(crate::ast::spec_unary(s, 3) == Ok::<_, EvalError>((spec_leaf(b), 4int)));
    assert(spec_mul_rest(s, 4, spec_leaf(b)) == Ok::<_, EvalError>((spec_leaf(b), 4int)));
    assert(crate::ast::spec_mul(s, 3) == Ok::<_, EvalError>((spec_leaf(b), 4int)));
    assert(crate::ast::spec_expr_rest(s, 6, bc) == Ok::<_, EvalError>((bc, 6int)));
    assert(crate::ast::spec_expr_rest(s, 4, spec_leaf(b)) == Ok::<_, EvalError>((bc, 6int)));
    assert(crate::ast::spec_expr(s, 3) == Ok::<_, EvalError>((bc, 6int)));
    assert(crate::ast::spec_primary(s, 2) == Ok::<_, EvalError>((bc, 7int)));
    assert(crate::ast::spec_unary(s, 2) == Ok::<_, EvalError>((bc, 7int)));
    assert(spec_mul_rest(s, 7, mab) == Ok::<_, EvalError>((mab, 7int)));
    assert(spec_mul_rest(s, 1, spec_leaf(a)) == Ok::<_, EvalError>((mab, 7int)));
    assert(crate::ast::spec_primary(s, 0) == Ok::<_, EvalError>((spec_leaf(a), 1int)));
    assert(crate::ast::spec_unary(s, 0) == Ok::<_, EvalError>((spec_leaf(a), 1int)));
    assert(crate::ast::spec_mul(s, 0) == Ok::<_, EvalError>((mab, 7int)));
    assert(crate::ast::spec_expr_rest(s, 7, mab) == Ok::<_, EvalError>((mab, 7int)));
    assert(crate::ast::spec_expr(s, 0) == Ok::<_, EvalError>((mab, 7int)));
}

/// Same-precedence chains fold to the left: `a - b - c` parses as
/// `(a - b) - c`, for all literal operands.
pub proof fn lemma_left_assoc(a: Number, b: Number, c: Number)
    ensures
        spec_parse(
            seq![
                TokenKind::NUM(a),
                TokenKind::MINUS,
                TokenKind::NUM(b),
                TokenKind::MINUS,
                TokenKind::NUM(c),
            ],
        ) == Ok::<_, EvalError>(
            spec_node(
                AstKind::SUB,
                spec_node(AstKind::SUB, spec_leaf(a), spec_leaf(b)),
                spec_leaf(c),
            ),
        ),
{
    reveal_with_fuel(crate::ast::spec_primary, 10);
    reveal_with_fuel(crate::ast::spec_unary, 10);
    reveal_with_fuel(crate::ast::spec_mul_rest, 10);
    reveal_with_fuel(crate::ast::spec_mul, 10);
    reveal_with_fuel(crate::ast::spec_expr_rest, 10);
    reveal_with_fuel(crate::ast::spec_expr, 10);
    let s = seq![
        TokenKind::NUM(a),
        TokenKind::MINUS,
        TokenKind::NUM(b),
        TokenKind::MINUS,
        TokenKind::NUM(c),
    ];
    let ab = spec_node(AstKind::SUB, spec_leaf(a), spec_leaf(b));
    let abc = spec_node(AstKind::SUB, ab, spec_leaf(c));
    assert(spec_mul_rest(s, 1, spec_leaf(a)) == Ok::<_, EvalError>((spec_leaf(a), 1int)));
    assert(spec_mul_rest(s, 3, spec_leaf(b)) == Ok::<_, EvalError>((spec_leaf(b), 3int)));
    assert(spec_mul_rest(s, 5, spec_leaf(c)) == Ok::<_, EvalError>((spec_leaf(c), 5int)));
    assert(crate::ast::spec_expr_rest(s, 5, abc) == Ok::<_, EvalError>((abc, 5int)));
    assert(crate::ast::spec_expr_rest(s, 3, ab) == Ok::<_, EvalError>((abc, 5int)));
}

/// A leading minus is sugar for subtraction from zero: `- a` parses
/// to the very tree that `0 - a` does, for every literal operand, so
/// the two evaluate alike.
pub proof fn lemma_unary_minus(a: Number)
    ensures
        spec_parse(seq![TokenKind::MINUS, TokenKind::NUM(a)]) == spec_parse(
            seq![TokenKind::NUM(Number { num: 0, den: 1 }), TokenKind::MINUS, TokenKind::NUM(a)],
        ),
{
    reveal_with_fuel(crate::ast::spec_primary, 10);
    reveal_with_fuel(crate::ast::spec_unary, 10);
    reveal_with_fuel(crate::ast::spec_mul_rest, 10);
    reveal_with_fuel(crate::ast::spec_mul, 10);
    reveal_with_fuel(crate::ast::spec_expr_rest, 10);
    reveal_with_fuel(crate::ast::spec_expr, 10);
    let s1 = seq![TokenKind::MINUS, TokenKind::NUM(a)];
    let s2 = seq![
        TokenKind::NUM(Number { num: 0, den: 1 }),
        TokenKind::MINUS,
        TokenKind::NUM(a),
    ];
    let zero = spec_leaf(Number { num: 0, den: 1 });
    let t = spec_node(AstKind::SUB, zero, spec_leaf(a));
    assert(spec_mul_rest(s1, 2, t) == Ok::<_, EvalError>((t, 2int)));
    assert(spec_parse(s1) == Ok::<_, EvalError>(t));
    assert(spec_mul_rest(s2, 1, zero) == Ok::<_, EvalError>((zero, 1int)));
    assert(spec_mul_rest(s2, 3, spec_leaf(a)) == Ok::<_, EvalError>((spec_leaf(a), 3int)));
    assert(crate::ast::spec_expr_rest(s2, 3, t) == Ok::<_, EvalError>((t, 3int)));
    assert(spec_parse(s2) == Ok::<_, EvalError>(t));
}

/// Division by an exact zero is an arithmetic error, never a value,
/// whatever the dividend evaluates to.
pub proof fn lemma_division_by_zero(l: Option<Box<crate::ast::Ast>>, r: Option<Box<crate::ast::Ast>>)
    requires
        spec_run(l) is Ok,
        spec_run(r) matches Ok(p) && p.0 == 0,
    ensures
        spec_run(spec_node(AstKind::DIV, l, r)) == Err::<(int, int), EvalError>(
            EvalError::ArithmeticError,
        ),
{
}

/// Remainder by an exact zero aborts exactly as division by zero
/// does: the same arithmetic error, never a value.
pub proof fn lemma_remainder_by_zero(l: Option<Box<crate::ast::Ast>>, r: Option<Box<crate::ast::Ast>>)
    requires
        spec_run(l) is Ok,
        spec_run(r) matches Ok(p) && p.0 == 0,
    ensures
        spec_run(spec_node(AstKind::REM, l, r)) == spec_run(spec_node(AstKind::DIV, l, r)),
        spec_run(spec_node(AstKind::REM, l, r)) == Err::<(int, int), EvalError>(
            EvalError::ArithmeticError,
        ),
{
}

} // verus!
