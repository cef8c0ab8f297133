//! Stage-by-stage checks: scanning, parsing, evaluating, rendering.

use fmtcalc::ast;
use fmtcalc::ast::{Ast, AstKind};
use fmtcalc::lexer::{tokenize, Lexer};
use fmtcalc::number::Number;
use fmtcalc::parser::gen;
use fmtcalc::token::TokenKind;
use fmtcalc::EvalError;

fn num(n: i128, d: i128) -> Number {
    Number { num: n, den: d }
}

#[test]
fn tokenize_operators_and_numbers() {
    let toks = tokenize(Lexer::new("1+2*(3-4)/5%6")).unwrap();
    assert_eq!(
        toks,
        vec![
            TokenKind::NUM(num(1, 1)),
            TokenKind::PLUS,
            TokenKind::NUM(num(2, 1)),
            TokenKind::ASTERISK,
            TokenKind::LPAREN,
            TokenKind::NUM(num(3, 1)),
            TokenKind::MINUS,
            TokenKind::NUM(num(4, 1)),
            TokenKind::RPAREN,
            TokenKind::SLASH,
            TokenKind::NUM(num(5, 1)),
            TokenKind::PERCENT,
            TokenKind::NUM(num(6, 1)),
        ]
    );
}

#[test]
fn tokenize_fractional_literal() {
    let toks = tokenize(Lexer::new("0.12")).unwrap();
    assert_eq!(toks, vec![TokenKind::NUM(num(12, 100))]);
}

#[test]
fn tokenize_hexadecimal_literal() {
    let toks = tokenize(Lexer::new("0x42")).unwrap();
    assert_eq!(toks, vec![TokenKind::NUM(num(66, 1))]);
}

#[test]
fn tokenize_illegal_character() {
    let toks = tokenize(Lexer::new("1?")).unwrap();
    assert_eq!(
        toks,
        vec![TokenKind::NUM(num(1, 1)), TokenKind::ILLEGAL('?')]
    );
}

#[test]
fn tokenize_emits_no_end_marker() {
    let toks = tokenize(Lexer::new("1 ")).unwrap();
    assert_eq!(toks, vec![TokenKind::NUM(num(1, 1))]);
    let toks = tokenize(Lexer::new("  ")).unwrap();
    assert_eq!(toks, vec![]);
}

#[test]
fn tokenize_empty_input_yields_nothing() {
    let toks = tokenize(Lexer::new("")).unwrap();
    assert_eq!(toks, vec![]);
}

#[test]
fn tokenize_oversized_literal_overflows() {
    assert!(matches!(
        tokenize(Lexer::new("99999999999999999999")),
        Err(EvalError::Overflow)
    ));
}

fn leaf(t: &Option<Box<Ast>>) -> Number {
    match t {
        Some(a) => match a.kind {
            AstKind::NUM(n) => n,
            _ => panic!("not a leaf"),
        },
        None => panic!("absent node"),
    }
}

#[test]
fn parse_builds_left_leaning_chain() {
    let toks = vec![
        TokenKind::NUM(num(8, 1)),
        TokenKind::MINUS,
        TokenKind::NUM(num(3, 1)),
        TokenKind::MINUS,
        TokenKind::NUM(num(2, 1)),
    ];
    let tree = ast::new(&toks).unwrap().unwrap();
    assert!(matches!(tree.kind, AstKind::SUB));
    let l = tree.lnode.as_ref().unwrap();
    assert!(matches!(l.kind, AstKind::SUB));
    assert_eq!(leaf(&l.lnode), num(8, 1));
    assert_eq!(leaf(&l.rnode), num(3, 1));
    assert_eq!(leaf(&tree.rnode), num(2, 1));
}

#[test]
fn parse_missing_paren_is_syntax_error() {
    let toks = vec![
        TokenKind::LPAREN,
        TokenKind::NUM(num(1, 1)),
        TokenKind::PLUS,
        TokenKind::NUM(num(2, 1)),
    ];
    assert!(matches!(ast::new(&toks), Err(EvalError::SyntaxError)));
}

#[test]
fn parse_rejects_operator_without_operand() {
    let missing_right = vec![
        TokenKind::NUM(num(1, 1)),
        TokenKind::PLUS,
        TokenKind::LPAREN,
        TokenKind::RPAREN,
    ];
    assert!(matches!(
        ast::new(&missing_right),
        Err(EvalError::SyntaxError)
    ));
    let missing_left = vec![TokenKind::ASTERISK, TokenKind::NUM(num(1, 1))];
    assert!(matches!(ast::new(&missing_left), Err(EvalError::SyntaxError)));
}

#[test]
fn parse_illegal_token_is_lexical_error() {
    let toks = vec![
        TokenKind::NUM(num(1, 1)),
        TokenKind::PLUS,
        TokenKind::ILLEGAL('@'),
    ];
    assert!(matches!(ast::new(&toks), Err(EvalError::LexicalError('@'))));
}

#[test]
fn gen_pushes_single_exact_value() {
    let toks = vec![
        TokenKind::NUM(num(2, 1)),
        TokenKind::PLUS,
        TokenKind::NUM(num(3, 1)),
    ];
    let tree = ast::new(&toks).unwrap();
    let mut v: Vec<Number> = vec![];
    gen(&tree, &mut v).unwrap();
    assert_eq!(v, vec![num(5, 1)]);
}

#[test]
fn number_addition_is_exact() {
    let r = num(1, 2).add(num(1, 3)).unwrap();
    assert_eq!(r, num(5, 6));
}

#[test]
fn number_subtraction_and_multiplication() {
    assert_eq!(num(1, 2).sub(num(1, 3)).unwrap(), num(1, 6));
    assert_eq!(num(2, 3).mul(num(3, 4)).unwrap(), num(6, 12));
}

#[test]
fn number_division_keeps_denominator_positive() {
    assert_eq!(num(1, 2).div(num(-1, 3)).unwrap(), num(-3, 2));
    assert!(matches!(
        num(1, 2).div(num(0, 1)),
        Err(EvalError::ArithmeticError)
    ));
}

#[test]
fn number_remainder_sign_follows_dividend() {
    assert_eq!(num(-7, 1).rem(num(3, 1)).unwrap(), num(-1, 1));
    assert_eq!(num(7, 1).rem(num(3, 1)).unwrap(), num(1, 1));
    assert!(matches!(
        num(7, 1).rem(num(0, 5)),
        Err(EvalError::ArithmeticError)
    ));
}

#[test]
fn number_overflow_is_reported() {
    let big = num(0x4000_0000_0000_0000, 1);
    assert!(matches!(big.mul(big), Err(EvalError::Overflow)));
}

#[test]
fn render_whole_and_fractional() {
    assert_eq!(num(3520, 1000).render(), "3.52");
    assert_eq!(num(8, 2).render(), "4");
    assert_eq!(num(-5, 10).render(), "-0.5");
    assert_eq!(num(0, 7).render(), "0");
    assert_eq!(Number::from_int(-12).render(), "-12");
}
