//! End-to-end evaluations: text in, text out.

use fmtcalc::expr;
use fmtcalc::EvalError;

#[test]
fn deterministic_same_input_same_output() {
    let a = expr("5+6*7");
    let b = expr("5+6*7");
    assert_eq!(a, b);
    let c = expr("1/0");
    let d = expr("1/0");
    assert_eq!(c, d);
}

#[test]
fn precedence_mul_over_add() {
    assert_eq!(expr("5+6*7").unwrap(), "47");
}

#[test]
fn parenthesized_grouping() {
    assert_eq!(expr("5*(9-6)").unwrap(), "15");
}

#[test]
fn division() {
    assert_eq!(expr("(3+5)/2").unwrap(), "4");
}

#[test]
fn fractional_addition() {
    assert_eq!(expr("0.12+3.4").unwrap(), "3.52");
}

#[test]
fn hexadecimal_literal() {
    assert_eq!(expr("0x42").unwrap(), "66");
}

#[test]
fn hexadecimal_letters_both_cases() {
    assert_eq!(expr("0xFF").unwrap(), "255");
    assert_eq!(expr("0xff").unwrap(), "255");
}

#[test]
fn fraction_after_hexadecimal_is_read_in_decimal() {
    assert_eq!(expr("0x1A.5").unwrap(), "26.5");
    assert_eq!(expr("0x.5").unwrap(), "0.5");
}

#[test]
fn division_by_zero_aborts() {
    assert!(matches!(expr("1/0"), Err(EvalError::ArithmeticError)));
}

#[test]
fn remainder_by_zero_aborts_identically() {
    assert_eq!(expr("1%0"), expr("1/0"));
    assert!(matches!(expr("1%0"), Err(EvalError::ArithmeticError)));
}

#[test]
fn unary_minus_is_zero_minus() {
    assert_eq!(expr("-5"), expr("0-5"));
    assert_eq!(expr("-5").unwrap(), "-5");
}

#[test]
fn unary_plus() {
    assert_eq!(expr("+5").unwrap(), "5");
}

#[test]
fn left_associativity() {
    assert_eq!(expr("8-3-2").unwrap(), "3");
}

#[test]
fn missing_closing_paren_aborts() {
    assert!(matches!(expr("(1+2"), Err(EvalError::SyntaxError)));
}

#[test]
fn illegal_character_aborts() {
    assert!(matches!(expr("1+@"), Err(EvalError::LexicalError('@'))));
}

#[test]
fn illegal_character_alone() {
    assert!(matches!(expr("@"), Err(EvalError::LexicalError('@'))));
}

#[test]
fn empty_input_aborts() {
    assert!(matches!(expr(""), Err(EvalError::SyntaxError)));
    assert!(matches!(expr("   "), Err(EvalError::SyntaxError)));
}

#[test]
fn dangling_operator_aborts() {
    assert!(matches!(expr("1+"), Err(EvalError::SyntaxError)));
}

#[test]
fn empty_parens_abort() {
    assert!(matches!(expr("()"), Err(EvalError::SyntaxError)));
    assert!(matches!(expr("1+()"), Err(EvalError::SyntaxError)));
}

#[test]
fn missing_operand_after_sign_aborts() {
    assert!(matches!(expr("-"), Err(EvalError::SyntaxError)));
    assert!(matches!(expr("1--"), Err(EvalError::SyntaxError)));
}

#[test]
fn whitespace_between_tokens() {
    assert_eq!(expr(" 12 +\t3 ").unwrap(), "15");
}

#[test]
fn readme_examples() {
    assert_eq!(expr("4+2").unwrap(), "6");
    assert_eq!(expr("1+2*3").unwrap(), "7");
    assert_eq!(expr("3*3+4*4").unwrap(), "25");
    assert_eq!(expr("5*5").unwrap(), "25");
    assert_eq!(expr("0xFF - 654.321").unwrap(), "-399.321");
}

#[test]
fn remainder_sign_follows_dividend() {
    assert_eq!(expr("7%3").unwrap(), "1");
    assert_eq!(expr("(0-7)%3").unwrap(), "-1");
    assert_eq!(expr("2.5%1").unwrap(), "0.5");
}

#[test]
fn nonterminating_expansion_is_cut_off() {
    assert_eq!(expr("1/3").unwrap(), "0.33333333333333333");
}

#[test]
fn negative_fraction() {
    assert_eq!(expr("0-0.5").unwrap(), "-0.5");
}

#[test]
fn trailing_tokens_are_ignored() {
    assert_eq!(expr("5)").unwrap(), "5");
}

#[test]
fn bare_point_after_integer() {
    assert_eq!(expr("5.").unwrap(), "5");
}

#[test]
fn faults_describe_themselves() {
    assert_eq!(
        expr("1/0").unwrap_err().describe(),
        "division or remainder by zero"
    );
    assert_eq!(
        expr("(1+2").unwrap_err().describe(),
        "expected a number, an operator, or a parenthesis"
    );
    assert_eq!(
        expr("1+@").unwrap_err().describe(),
        "illegal character in input"
    );
}

#[test]
fn oversized_literal_overflows() {
    assert!(matches!(
        expr("9999999999999999999999"),
        Err(EvalError::Overflow)
    ));
}
