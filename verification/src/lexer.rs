//! The lexer: scans a character sequence into tokens.
//!
//! Whitespace separates tokens and is skipped.  Single characters map
//! to the operator and parenthesis tokens.  A numeric literal starts
//! with a decimal digit; a literal whose accumulated value is still
//! zero when an `x` appears switches to base sixteen for the rest of
//! its integer part; a decimal point may follow, with the fractional
//! digits always read in base ten.  Any other character becomes an
//! illegal-character token, and scanning goes on behind it.

use vstd::prelude::*;
use vstd::string::StrSliceExecFns;
use crate::number::{EvalError, Number, NUM_LIMIT};
use crate::token::TokenKind;

verus! {

/// The whitespace characters that separate tokens (the Unicode
/// White_Space set).
pub open spec fn spec_is_space(c: char) -> bool {
    let v = c as u32;
    (9 <= v <= 13) || v == 32 || v == 133 || v == 160 || v == 0x1680
        || (0x2000 <= v <= 0x200A) || v == 0x2028 || v == 0x2029 || v == 0x202F
        || v == 0x205F || v == 0x3000
}

/// The value of `c` as a digit in the given base, if it is one.
/// Bases ten and sixteen are the only ones the lexer uses; letter
/// digits count only in base sixteen.
pub open spec fn spec_char_digit(c: char, radix: int) -> Option<int> {
    let v = c as u32 as int;
    if 48 <= v <= 57 {
        Some(v - 48)
    } else if radix == 16 && 97 <= v <= 102 {
        Some(v - 87)
    } else if radix == 16 && 65 <= v <= 70 {
        Some(v - 55)
    } else {
        None
    }
}

/// The position of the first non-whitespace character at or after
/// `i`, or the end of the sequence.
pub open spec fn spec_skip_ws(s: Seq<char>, i: int) -> int
    decreases s.len() - i,
{
    if 0 <= i < s.len() && spec_is_space(s[i]) {
        spec_skip_ws(s, i + 1)
    } else {
        i
    }
}

/// Scans the integer part of a literal from `i`, with `acc` already
/// accumulated in base `radix`.  An `x` while the accumulator is zero
/// switches to base sixteen.  Returns the accumulator, the base, and
/// the position after the integer part, or an overflow error as soon
/// as the accumulator would leave the representable range.
pub open spec fn spec_scan_int(s: Seq<char>, i: int, radix: int, acc: int) -> Result<
    (int, int, int),
    EvalError,
>
    decreases s.len() - i,
{
    if !(0 <= i < s.len()) {
        Ok((acc, radix, i))
    } else {
        match spec_char_digit(s[i], radix) {
            Some(dv) => {
                let cand = acc * radix + dv;
                if cand > NUM_LIMIT as int {
                    Err(EvalError::Overflow)
                } else {
                    spec_scan_int(s, i + 1, radix, cand)
                }
            },
            None => {
                if acc == 0 && s[i] == 'x' {
                    spec_scan_int(s, i + 1, 16, 0)
                } else {
                    Ok((acc, radix, i))
                }
            },
        }
    }
}

/// Scans fractional digits from `i` in base ten: `fnum` holds the
/// digits read so far and `fden` the matching power of ten.  Returns
/// both and the position after the digits, or an overflow error as
/// soon as the power of ten would leave the representable range.
pub open spec fn spec_scan_frac(s: Seq<char>, i: int, fnum: int, fden: int) -> Result<
    (int, int, int),
    EvalError,
>
    decreases s.len() - i,
{
    if !(0 <= i < s.len()) {
        Ok((fnum, fden, i))
    } else {
        match spec_char_digit(s[i], 10) {
            Some(dv) => {
                let cden = fden * 10;
                if cden > NUM_LIMIT as int {
                    Err(EvalError::Overflow)
                } else {
                    spec_scan_frac(s, i + 1, fnum * 10 + dv, cden)
                }
            },
            None => Ok((fnum, fden, i)),
        }
    }
}

/// Scans the numeric literal that starts with the digit at `i`: the
/// integer part, then, if a decimal point follows, the fractional
/// part.  The literal's exact value is `whole + fraction`, a rational
/// whose denominator is the power of ten of the fractional digits.
pub open spec fn spec_scan_number(s: Seq<char>, i: int) -> Result<(TokenKind, int), EvalError>
    recommends
        0 <= i < s.len(),
        spec_char_digit(s[i], 10) is Some,
{
    let d0 = match spec_char_digit(s[i], 10) {
        Some(d) => d,
        None => 0,
    };
    match spec_scan_int(s, i + 1, 10, d0) {
        Err(e) => Err(e),
        Ok((acc, _radix, j)) => {
            if 0 <= j < s.len() && s[j] == '.' {
                match spec_scan_frac(s, j + 1, 0, 1) {
                    Err(e) => Err(e),
                    Ok((fnum, fden, k)) => {
                        let total = acc * fden + fnum;
                        if total > NUM_LIMIT as int {
                            Err(EvalError::Overflow)
                        } else {
                            Ok(
                                (
                                    TokenKind::NUM(
                                        Number { num: total as i128, den: fden as i128 },
                                    ),
                                    k,
                                ),
                            )
                        }
                    },
                }
            } else {
                Ok((TokenKind::NUM(Number { num: acc as i128, den: 1 }), j))
            }
        },
    }
}

/// The next token at or after `i`, and the position after it.  Only
/// whitespace left gives the end-of-input token; an unrecognized
/// character gives an illegal-character token.
pub open spec fn spec_next_token(s: Seq<char>, i: int) -> Result<(TokenKind, int), EvalError> {
    let j = spec_skip_ws(s, i);
    if !(j < s.len()) {
        Ok((TokenKind::EOF, j))
    } else {
        let c = s[j];
        if c == '+' {
            Ok((TokenKind::PLUS, j + 1))
        } else if c == '-' {
            Ok((TokenKind::MINUS, j + 1))
        } else if c == '*' {
            Ok((TokenKind::ASTERISK, j + 1))
        } else if c == '/' {
            Ok((TokenKind::SLASH, j + 1))
        } else if c == '%' {
            Ok((TokenKind::PERCENT, j + 1))
        } else if c == '(' {
            Ok((TokenKind::LPAREN, j + 1))
        } else if c == ')' {
            Ok((TokenKind::RPAREN, j + 1))
        } else if spec_char_digit(c, 10) is Some {
            spec_scan_number(s, j)
        } else {
            Ok((TokenKind::ILLEGAL(c), j + 1))
        }
    }
}

/// The token sequence from `i` to the end of the input, or the first
/// fault.  Scanning a character sequence never fails for any reason
/// but overflow: an illegal character is itself a token.  No
/// end-of-input token enters the sequence: when only whitespace is
/// left the scan simply ends, and exhaustion signals the end.
pub open spec fn spec_tokens_from(s: Seq<char>, i: int) -> Result<Seq<TokenKind>, EvalError>
    decreases s.len() - i,
{
    if !(0 <= i < s.len()) {
        Ok(Seq::empty())
    } else {
        match spec_next_token(s, i) {
            Err(e) => Err(e),
            Ok((tok, j)) => {
                if tok is EOF {
                    Ok(Seq::empty())
                } else if j <= i || j > s.len() {
                    Ok(seq![tok])  // never reached: a token is at least one character wide
                } else {
                    match spec_tokens_from(s, j) {
                        Err(e) => Err(e),
                        Ok(rest) => Ok(seq![tok] + rest),
                    }
                }
            },
        }
    }
}

/// Whether `c` separates tokens.
fn is_space_char(c: char) -> (b: bool)
    ensures
        b == spec_is_space(c),
{
    let v = c as u32;
    (9 <= v && v <= 13) || v == 32 || v == 133 || v == 160 || v == 0x1680
        || (0x2000 <= v && v <= 0x200A) || v == 0x2028 || v == 0x2029 || v == 0x202F
        || v == 0x205F || v == 0x3000
}

/// The value of `c` as a digit in base `radix`, if it is one.
fn char_digit(c: char, radix: i128) -> (r: Option<i128>)
    ensures
        (match r {
            Some(d) => spec_char_digit(c, radix as int) == Some(d as int) && 0 <= d < 16,
            None => spec_char_digit(c, radix as int) is None,
        }),
{
    let v = c as u32;
    if 48 <= v && v <= 57 {
        Some((v - 48) as i128)
    } else if radix == 16 && 97 <= v && v <= 102 {
        Some((v - 87) as i128)
    } else if radix == 16 && 65 <= v && v <= 70 {
        Some((v - 55) as i128)
    } else {
        None
    }
}

/// Scanner state: the characters of the input and a read position.
pub struct Lexer {
    chars: Vec<char>,
    pos: usize,
}

impl Lexer {
    /// The characters being scanned.
    pub closed spec fn text(self) -> Seq<char> {
        self.chars@
    }

    /// The current read position.
    pub closed spec fn pos(self) -> int {
        self.pos as int
    }

    /// A scanner over the characters of `input`, at its start.
    pub fn new(input: &str) -> (l: Lexer)
        ensures
            l.text() == input@,
            l.pos() == 0,
    {
        let n = input.unicode_len();
        let mut chars: Vec<char> = Vec::new();
        let mut i: usize = 0;
        while i < n
            invariant
                i <= n,
                n == input@.len(),
                chars@ == input@.subrange(0, i as int),
            decreases n - i,
        {
            chars.push(input.get_char(i));
            i = i + 1;
            assert(chars@ =~= input@.subrange(0, i as int));
        }
        assert(chars@ =~= input@);
        Lexer { chars, pos: 0 }
    }

    /// Whether the input is exhausted.
    fn eof(&self) -> (b: bool)
        ensures
            b == (self.text().len() <= self.pos()),
    {
        self.chars.len() <= self.pos
    }

    /// The character at the read position.
    fn next_char(&self) -> (c: char)
        requires
            self.pos() < self.text().len(),
        ensures
            c == self.text()[self.pos()],
    {
        self.chars[self.pos]
    }

    /// Reads the character at the read position and moves past it.
    fn consume_char(&mut self) -> (c: char)
        requires
            old(self).pos() < old(self).text().len(),
        ensures
            c == old(self).text()[old(self).pos()],
            final(self).text() == old(self).text(),
            final(self).pos() == old(self).pos() + 1,
    {
        assert(self.pos < self.chars.len());
        let c = self.chars[self.pos];
        self.pos = self.pos + 1;
        c
    }

    /// Moves the read position past any whitespace.
    fn skip_whitespace(&mut self)
        requires
            old(self).pos() <= old(self).text().len(),
        ensures
            final(self).text() == old(self).text(),
            final(self).pos() == spec_skip_ws(old(self).text(), old(self).pos()),
            old(self).pos() <= final(self).pos() <= final(self).text().len(),
    {
        while !self.eof() && is_space_char(self.next_char())
            invariant
                self.text() == old(self).text(),
                old(self).pos() <= self.pos() <= self.text().len(),
                spec_skip_ws(self.text(), self.pos()) == spec_skip_ws(
                    old(self).text(),
                    old(self).pos(),
                ),
            decreases self.text().len() - self.pos(),
        {
            self.consume_char();
        }
    }

    /// Scans the rest of the integer part of a literal, `acc` already
    /// accumulated in base `radix`.
    fn scan_int(&mut self, radix: i128, acc: i128) -> (r: Result<(i128, i128), EvalError>)
        requires
            old(self).pos() <= old(self).text().len(),
            0 <= acc <= NUM_LIMIT,
            radix == 10 || radix == 16,
        ensures
            final(self).text() == old(self).text(),
            old(self).pos() <= final(self).pos() <= final(self).text().len(),
            (match spec_scan_int(old(self).text(), old(self).pos(), radix as int, acc as int) {
                Ok((a2, r2, j)) => (match r {
                    Ok((acc2, radix2)) => acc2 as int == a2 && radix2 as int == r2
                        && final(self).pos() == j && 0 <= acc2 <= NUM_LIMIT,
                    Err(_) => false,
                }),
                Err(e) => r == Err::<(i128, i128), EvalError>(e),
            }),
        decreases old(self).text().len() - old(self).pos(),
    {
        if self.eof() {
            return Ok((acc, radix));
        }
        let c = self.next_char();
        match char_digit(c, radix) {
            Some(dv) => {
                assert(0 <= acc * radix + dv <= 16 * NUM_LIMIT + 15) by (nonlinear_arith)
                    requires
                        0 <= acc <= NUM_LIMIT as int,
                        radix == 10 || radix == 16,
                        0 <= dv < 16,
                ;
                let cand = acc * radix + dv;
                if cand > NUM_LIMIT {
                    Err(EvalError::Overflow)
                } else {
                    self.consume_char();
                    self.scan_int(radix, cand)
                }
            },
            None => {
                if acc == 0 && c == 'x' {
                    self.consume_char();
                    self.scan_int(16, 0)
                } else {
                    Ok((acc, radix))
                }
            },
        }
    }

    /// Scans the rest of the fractional digits of a literal: `fnum`
    /// holds the digits read so far, `fden` the matching power of ten.
    fn scan_frac(&mut self, fnum: i128, fden: i128) -> (r: Result<(i128, i128), EvalError>)
        requires
            old(self).pos() <= old(self).text().len(),
            0 <= fnum < fden <= NUM_LIMIT,
        ensures
            final(self).text() == old(self).text(),
            old(self).pos() <= final(self).pos() <= final(self).text().len(),
            (match spec_scan_frac(old(self).text(), old(self).pos(), fnum as int, fden as int) {
                Ok((n2, d2, j)) => (match r {
                    Ok((fnum2, fden2)) => fnum2 as int == n2 && fden2 as int == d2
                        && final(self).pos() == j && 0 <= fnum2 < fden2 <= NUM_LIMIT,
                    Err(_) => false,
                }),
                Err(e) => r == Err::<(i128, i128), EvalError>(e),
            }),
        decreases old(self).text().len() - old(self).pos(),
    {
        if self.eof() {
            return Ok((fnum, fden));
        }
        let c = self.next_char();
        match char_digit(c, 10) {
            Some(dv) => {
                let cden = fden * 10;
                if cden > NUM_LIMIT {
                    Err(EvalError::Overflow)
                } else {
                    self.consume_char();
                    self.scan_frac(fnum * 10 + dv, cden)
                }
            },
            None => Ok((fnum, fden)),
        }
    }

    /// Scans the numeric literal whose first digit, of value `d0`,
    /// stands just before the read position.
    fn scan_number(&mut self, d0: i128) -> (r: Result<TokenKind, EvalError>)
        requires
            0 < old(self).pos() <= old(self).text().len(),
            spec_char_digit(old(self).text()[old(self).pos() - 1], 10) == Some(d0 as int),
            0 <= d0 < 10,
        ensures
            final(self).text() == old(self).text(),
            old(self).pos() <= final(self).pos() <= final(self).text().len(),
            (match spec_scan_number(old(self).text(), old(self).pos() - 1) {
                Ok((tok, j)) => r == Ok::<TokenKind, EvalError>(tok) && final(self).pos() == j
                    && tok.wf(),
                Err(e) => r == Err::<TokenKind, EvalError>(e),
            }),
    {
        let (acc, _radix) = match self.scan_int(10, d0) {
            Ok(p) => p,
            Err(e) => {
                return Err(e);
            },
        };
        if !self.eof() && self.next_char() == '.' {
            self.consume_char();
            let (fnum, fden) = match self.scan_frac(0, 1) {
                Ok(p) => p,
                Err(e) => {
                    return Err(e);
                },
            };
            proof {
                crate::number::lemma_mul_bound(acc as int, fden as int, NUM_LIMIT as int);
            }
            assert(0 <= acc * fden) by (nonlinear_arith)
                requires 0 <= acc, 0 < fden,
            ;
            let total = acc * fden + fnum;
            if total > NUM_LIMIT {
                Err(EvalError::Overflow)
            } else {
                Ok(TokenKind::NUM(Number { num: total, den: fden }))
            }
        } else {
            Ok(TokenKind::NUM(Number { num: acc, den: 1 }))
        }
    }

    /// Scans the next token and moves the read position past it.
    fn next_token(&mut self) -> (r: Result<TokenKind, EvalError>)
        requires
            old(self).pos() <= old(self).text().len(),
        ensures
            final(self).text() == old(self).text(),
            old(self).pos() <= final(self).pos() <= final(self).text().len(),
            old(self).pos() < old(self).text().len() ==> final(self).pos() > old(self).pos(),
            (match spec_next_token(old(self).text(), old(self).pos()) {
                Ok((tok, j)) => r == Ok::<TokenKind, EvalError>(tok) && final(self).pos() == j
                    && tok.wf(),
                Err(e) => r == Err::<TokenKind, EvalError>(e),
            }),
    {
        self.skip_whitespace();
        if self.eof() {
            return Ok(TokenKind::EOF);
        }
        let c = self.consume_char();
        if c == '+' {
            Ok(TokenKind::PLUS)
        } else if c == '-' {
            Ok(TokenKind::MINUS)
        } else if c == '*' {
            Ok(TokenKind::ASTERISK)
        } else if c == '/' {
            Ok(TokenKind::SLASH)
        } else if c == '%' {
            Ok(TokenKind::PERCENT)
        } else if c == '(' {
            Ok(TokenKind::LPAREN)
        } else if c == ')' {
            Ok(TokenKind::RPAREN)
        } else {
            match char_digit(c, 10) {
                Some(d0) => self.scan_number(d0),
                None => Ok(TokenKind::ILLEGAL(c)),
            }
        }
    }
}

/// Scans the whole input into its token sequence, or reports the
/// first fault (only an oversized literal can be one).  The sequence
/// holds no end-of-input token: callers read to its end.
#[verifier::loop_isolation(false)]
pub fn tokenize(l: Lexer) -> (r: Result<Vec<TokenKind>, EvalError>)
    requires
        l.pos() <= l.text().len(),
    ensures
        (match spec_tokens_from(l.text(), l.pos()) {
            Ok(sq) => (match r {
                Ok(v) => v@ == sq && (forall|k: int|
                    0 <= k < sq.len() ==> sq[k].wf() && !(sq[k] is EOF)),
                Err(_) => false,
            }),
            Err(e) => r == Err::<Vec<TokenKind>, EvalError>(e),
        }),
{
    let ghost t = l.text();
    let ghost p0 = l.pos();
    let mut l = l;
    let mut tok: Vec<TokenKind> = Vec::new();
    while !l.eof()
        invariant
            l.text() == t,
            p0 <= l.pos() <= t.len(),
            forall|k: int| 0 <= k < tok@.len() ==> tok@[k].wf() && !(tok@[k] is EOF),
            spec_tokens_from(t, p0) == (match spec_tokens_from(t, l.pos()) {
                Ok(rest) => Ok::<Seq<TokenKind>, EvalError>(tok@ + rest),
                Err(e) => Err::<Seq<TokenKind>, EvalError>(e),
            }),
        decreases t.len() - l.pos(),
    {
        let ghost pcur = l.pos();
        match l.next_token() {
            Err(e) => {
                return Err(e);
            },
            Ok(tk) => {
                if let TokenKind::EOF = tk {
                    assert(tok@ + Seq::<TokenKind>::empty() =~= tok@);
                    return Ok(tok);
                }
                let ghost tokpre = tok@;
                tok.push(tk);
                proof {
                    match spec_tokens_from(t, l.pos()) {
                        Ok(rest2) => {
                            assert(tokpre + (seq![tk] + rest2) =~= tok@ + rest2);
                        },
                        Err(_) => {},
                    }
                }
            },
        }
    }
    assert(spec_tokens_from(t, l.pos()) == Ok::<Seq<TokenKind>, EvalError>(Seq::empty()));
    assert(tok@ + Seq::<TokenKind>::empty() =~= tok@);
    Ok(tok)
}

} // verus!
