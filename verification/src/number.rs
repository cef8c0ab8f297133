//! Exact rational numbers with bounded components.
//!
//! A value is a fraction `num / den` of two signed machine integers,
//! with `den` positive and both components no larger than `NUM_LIMIT`
//! in magnitude.  All arithmetic is exact; a result whose components
//! would leave that range is reported as an overflow error rather
//! than rounded.
//!
//! Fractions are kept unreduced: each operation's contract then fixes
//! the result as a closed arithmetic form of the operands' components
//! alone.  The price is a smaller domain — denominators multiply on
//! every addition, so long chains of fractional terms can overflow
//! where reduced fractions would not — though no reduction could
//! remove the limit itself, and a result is never silently wrong:
//! what comes back is exact, or it is the overflow error.

use vstd::prelude::*;
use vstd::string::StringExecFns;

verus! {

/// How many fractional digits a rendered result may carry.  A value
/// whose decimal expansion is longer (or does not terminate, such as
/// a third) is cut off after this many digits.
pub const FRAC_LIMIT: usize = 17;

/// Why an evaluation was aborted.  Every stage of the pipeline fails
/// fast: the first fault ends the whole evaluation, with no partial
/// result.  The lexical, syntax and arithmetic kinds are the three
/// faults of the language itself; overflow stands apart as the one
/// machine limit of exact arithmetic, which bounded components force
/// where floating point would instead round.
#[derive(Clone, Copy, Debug, PartialEq, Eq)]
pub enum EvalError {
    /// An input character is not whitespace, an operator, a
    /// parenthesis, or part of a numeric literal; carries the
    /// offending character.
    LexicalError(char),
    /// A required token was missing or mismatched: a closing
    /// parenthesis that never came, or an operand demanded by a sign,
    /// an operator, or a pair of parentheses that was not there.
    SyntaxError,
    /// Division or remainder with a zero divisor.
    ArithmeticError,
    /// An exact result left the representable range.
    Overflow,
}

impl EvalError {
    /// The wording of each fault.
    pub open spec fn spec_describe(self) -> Seq<char> {
        match self {
            EvalError::LexicalError(_) => "illegal character in input"@,
            EvalError::SyntaxError => "expected a number, an operator, or a parenthesis"@,
            EvalError::ArithmeticError => "division or remainder by zero"@,
            EvalError::Overflow => "result out of representable range"@,
        }
    }

    /// A short account of the fault, for whoever surfaces the abort.
    /// One fixed sentence per kind: what a fault carries beyond that
    /// (the offending character of a lexical fault) sits in the value
    /// itself, for the caller that frames the message to include.
    pub fn describe(&self) -> (r: String)
        ensures
            r@ == self.spec_describe(),
    {
        match self {
            EvalError::LexicalError(_) => String::from_str("illegal character in input"),
            EvalError::SyntaxError => String::from_str(
                "expected a number, an operator, or a parenthesis",
            ),
            EvalError::ArithmeticError => String::from_str("division or remainder by zero"),
            EvalError::Overflow => String::from_str("result out of representable range"),
        }
    }
}

/// Largest magnitude a numerator may take, and largest value a
/// denominator may take (2^62).  Products of two in-range components
/// always fit in an `i128`.
pub const NUM_LIMIT: i128 = 0x4000_0000_0000_0000;

/// An exact rational number.
#[derive(Clone, Copy, Debug, PartialEq, Eq, Structural)]
pub struct Number {
    pub num: i128,
    pub den: i128,
}

/// Both components of a fraction are in the representable range and
/// the denominator is positive.
pub open spec fn fits(n: int, d: int) -> bool {
    &&& -(NUM_LIMIT as int) <= n <= NUM_LIMIT as int
    &&& 0 < d <= NUM_LIMIT as int
}

/// Exact value of the sum, as an unreduced fraction.
pub open spec fn spec_add(a: (int, int), b: (int, int)) -> (int, int) {
    (a.0 * b.1 + b.0 * a.1, a.1 * b.1)
}

/// Exact value of the difference, as an unreduced fraction.
pub open spec fn spec_sub(a: (int, int), b: (int, int)) -> (int, int) {
    (a.0 * b.1 - b.0 * a.1, a.1 * b.1)
}

/// Exact value of the product, as an unreduced fraction.
pub open spec fn spec_mul(a: (int, int), b: (int, int)) -> (int, int) {
    (a.0 * b.0, a.1 * b.1)
}

/// Exact value of the quotient, as an unreduced fraction whose
/// denominator has been kept positive.  Meaningful only for a nonzero
/// divisor.
pub open spec fn spec_div(a: (int, int), b: (int, int)) -> (int, int) {
    if b.0 < 0 {
        (-(a.0 * b.1), -(a.1 * b.0))
    } else {
        (a.0 * b.1, a.1 * b.0)
    }
}

/// Exact remainder `a - trunc(a / b) * b`: the quotient is truncated
/// toward zero, so the remainder carries the sign of the dividend, as
/// floating-point remainders do.  Meaningful only for a nonzero
/// divisor.
pub open spec fn spec_rem(a: (int, int), b: (int, int)) -> (int, int) {
    let n1 = a.0 * b.1;
    let d1 = a.1 * b.0;
    let pa = if n1 < 0 { -n1 } else { n1 };
    let pb = if d1 < 0 { -d1 } else { d1 };
    let rm = pa % pb;
    ((if n1 < 0 { -rm } else { rm }), a.1 * b.1)
}

pub(crate) proof fn lemma_mul_bound(a: int, b: int, m: int)
    by (nonlinear_arith)
    requires
        0 <= m,
        -m <= a <= m,
        -m <= b <= m,
    ensures
        -(m * m) <= a * b <= m * m,
{
}

pub(crate) proof fn lemma_mul_nonzero(a: int, b: int)
    by (nonlinear_arith)
    requires
        a != 0,
        b != 0,
    ensures
        a * b != 0,
{
}

pub(crate) proof fn lemma_mul_pos(a: int, b: int)
    by (nonlinear_arith)
    requires
        0 < a,
        0 < b,
    ensures
        0 < a * b,
{
}

/// The decimal digit character for a value between zero and nine.
pub open spec fn digit_char(d: int) -> char {
    if d == 0 { '0' }
    else if d == 1 { '1' }
    else if d == 2 { '2' }
    else if d == 3 { '3' }
    else if d == 4 { '4' }
    else if d == 5 { '5' }
    else if d == 6 { '6' }
    else if d == 7 { '7' }
    else if d == 8 { '8' }
    else { '9' }
}

/// Decimal digits of a whole number, most significant first, with no
/// leading zero except for the number zero itself.
pub open spec fn spec_int_digits(n: nat) -> Seq<char>
    decreases n,
{
    if n < 10 {
        seq![digit_char(n as int)]
    } else {
        spec_int_digits(n / 10).push(digit_char((n % 10) as int))
    }
}

/// Decimal expansion of the proper fraction `r / q` by long division,
/// at most `fuel` digits.  When the expansion terminates within the
/// fuel it carries no trailing zeros, so it is the minimal one.
pub open spec fn spec_frac_digits(r: nat, q: nat, fuel: nat) -> Seq<char>
    recommends
        0 < q,
        r < q,
    decreases fuel,
{
    if r == 0 || fuel == 0 || q == 0 {
        Seq::empty()
    } else {
        seq![digit_char(((r * 10) / q) as int)] + spec_frac_digits((r * 10) % q, q, (fuel - 1) as nat)
    }
}

/// The rendering of the exact fraction `n / d`: a possible minus
/// sign, the whole part in decimal, and, only when the value is not
/// whole, a point and the fractional digits per `spec_frac_digits`.
pub open spec fn spec_render(n: int, d: int) -> Seq<char>
    recommends
        fits(n, d),
{
    let sign: Seq<char> = if n < 0 { seq!['-'] } else { Seq::empty() };
    let a = (if n < 0 { -n } else { n }) as nat;
    let q = d as nat;
    if a % q == 0 {
        sign + spec_int_digits(a / q)
    } else {
        sign + spec_int_digits(a / q) + seq!['.'] + spec_frac_digits(a % q, q, FRAC_LIMIT as nat)
    }
}

/// The decimal digit character for a machine digit.
fn digit_str(d: u8) -> (r: &'static str)
    requires
        d < 10,
    ensures
        r@ == seq![digit_char(d as int)],
{
    if d == 0 {
        proof { reveal_strlit("0"); assert("0"@ =~= seq![digit_char(0int)]); }
        "0"
    } else if d == 1 {
        proof { reveal_strlit("1"); assert("1"@ =~= seq![digit_char(1int)]); }
        "1"
    } else if d == 2 {
        proof { reveal_strlit("2"); assert("2"@ =~= seq![digit_char(2int)]); }
        "2"
    } else if d == 3 {
        proof { reveal_strlit("3"); assert("3"@ =~= seq![digit_char(3int)]); }
        "3"
    } else if d == 4 {
        proof { reveal_strlit("4"); assert("4"@ =~= seq![digit_char(4int)]); }
        "4"
    } else if d == 5 {
        proof { reveal_strlit("5"); assert("5"@ =~= seq![digit_char(5int)]); }
        "5"
    } else if d == 6 {
        proof { reveal_strlit("6"); assert("6"@ =~= seq![digit_char(6int)]); }
        "6"
    } else if d == 7 {
        proof { reveal_strlit("7"); assert("7"@ =~= seq![digit_char(7int)]); }
        "7"
    } else if d == 8 {
        proof { reveal_strlit("8"); assert("8"@ =~= seq![digit_char(8int)]); }
        "8"
    } else {
        proof { reveal_strlit("9"); assert("9"@ =~= seq![digit_char(9int)]); }
        "9"
    }
}

/// Appends the decimal digits of a whole number.
fn push_int_digits(s: &mut String, n: u128)
    ensures
        final(s)@ == old(s)@ + spec_int_digits(n as nat),
    decreases n,
{
    if n < 10 {
        s.append(digit_str(n as u8));
        assert(final(s)@ =~= old(s)@ + spec_int_digits(n as nat));
    } else {
        push_int_digits(s, n / 10);
        s.append(digit_str((n % 10) as u8));
        assert(final(s)@ =~= old(s)@ + spec_int_digits(n as nat));
    }
}

/// Appends at most `fuel` digits of the decimal expansion of the
/// proper fraction `r / q`.
fn push_frac_digits(s: &mut String, r: u128, q: u128, fuel: usize)
    requires
        0 < q <= NUM_LIMIT as u128,
        r < q,
    ensures
        final(s)@ == old(s)@ + spec_frac_digits(r as nat, q as nat, fuel as nat),
    decreases fuel,
{
    if r == 0 || fuel == 0 {
        assert(final(s)@ =~= old(s)@ + spec_frac_digits(r as nat, q as nat, fuel as nat));
    } else {
        let d = (r * 10) / q;
        assert(d < 10) by (nonlinear_arith)
            requires r < q, 0 < q, d as int == ((r as int) * 10) / (q as int);
        s.append(digit_str(d as u8));
        push_frac_digits(s, (r * 10) % q, q, fuel - 1);
        assert(final(s)@ =~= old(s)@ + spec_frac_digits(r as nat, q as nat, fuel as nat));
    }
}

impl Number {
    /// The components are in range and the denominator is positive.
    pub open spec fn wf(self) -> bool {
        fits(self.num as int, self.den as int)
    }

    /// The fraction this value stands for, as a pair of unbounded
    /// integers.
    pub open spec fn pair(self) -> (int, int) {
        (self.num as int, self.den as int)
    }

    /// A whole number.
    pub fn from_int(n: i32) -> (r: Number)
        ensures
            r.wf(),
            r.pair() == (n as int, 1int),
    {
        Number { num: n as i128, den: 1 }
    }

    /// Exact sum; an overflow error exactly when the unreduced result
    /// leaves the representable range.
    pub fn add(self, o: Number) -> (r: Result<Number, EvalError>)
        requires
            self.wf(),
            o.wf(),
        ensures
            (match r {
                Ok(x) => x.wf() && x.pair() == spec_add(self.pair(), o.pair())
                    && fits(spec_add(self.pair(), o.pair()).0, spec_add(self.pair(), o.pair()).1),
                Err(e) => e == EvalError::Overflow
                    && !fits(spec_add(self.pair(), o.pair()).0, spec_add(self.pair(), o.pair()).1),
            }),
    {
        proof {
            lemma_mul_bound(self.num as int, o.den as int, NUM_LIMIT as int);
            lemma_mul_bound(o.num as int, self.den as int, NUM_LIMIT as int);
            lemma_mul_bound(self.den as int, o.den as int, NUM_LIMIT as int);
            lemma_mul_pos(self.den as int, o.den as int);
        }
        let n: i128 = self.num * o.den + o.num * self.den;
        let d: i128 = self.den * o.den;
        if -NUM_LIMIT <= n && n <= NUM_LIMIT && d <= NUM_LIMIT {
            Ok(Number { num: n, den: d })
        } else {
            Err(EvalError::Overflow)
        }
    }

    /// Exact difference; an overflow error exactly when the unreduced
    /// result leaves the representable range.
    pub fn sub(self, o: Number) -> (r: Result<Number, EvalError>)
        requires
            self.wf(),
            o.wf(),
        ensures
            (match r {
                Ok(x) => x.wf() && x.pair() == spec_sub(self.pair(), o.pair())
                    && fits(spec_sub(self.pair(), o.pair()).0, spec_sub(self.pair(), o.pair()).1),
                Err(e) => e == EvalError::Overflow
                    && !fits(spec_sub(self.pair(), o.pair()).0, spec_sub(self.pair(), o.pair()).1),
            }),
    {
        proof {
            lemma_mul_bound(self.num as int, o.den as int, NUM_LIMIT as int);
            lemma_mul_bound(o.num as int, self.den as int, NUM_LIMIT as int);
            lemma_mul_bound(self.den as int, o.den as int, NUM_LIMIT as int);
            lemma_mul_pos(self.den as int, o.den as int);
        }
        let n: i128 = self.num * o.den - o.num * self.den;
        let d: i128 = self.den * o.den;
        if -NUM_LIMIT <= n && n <= NUM_LIMIT && d <= NUM_LIMIT {
            Ok(Number { num: n, den: d })
        } else {
            Err(EvalError::Overflow)
        }
    }

    /// Exact product; an overflow error exactly when the unreduced
    /// result leaves the representable range.
    pub fn mul(self, o: Number) -> (r: Result<Number, EvalError>)
        requires
            self.wf(),
            o.wf(),
        ensures
            (match r {
                Ok(x) => x.wf() && x.pair() == spec_mul(self.pair(), o.pair())
                    && fits(spec_mul(self.pair(), o.pair()).0, spec_mul(self.pair(), o.pair()).1),
                Err(e) => e == EvalError::Overflow
                    && !fits(spec_mul(self.pair(), o.pair()).0, spec_mul(self.pair(), o.pair()).1),
            }),
    {
        proof {
            lemma_mul_bound(self.num as int, o.num as int, NUM_LIMIT as int);
            lemma_mul_bound(self.den as int, o.den as int, NUM_LIMIT as int);
            lemma_mul_pos(self.den as int, o.den as int);
        }
        let n: i128 = self.num * o.num;
        let d: i128 = self.den * o.den;
        if -NUM_LIMIT <= n && n <= NUM_LIMIT && d <= NUM_LIMIT {
            Ok(Number { num: n, den: d })
        } else {
            Err(EvalError::Overflow)
        }
    }

    /// Exact quotient.  A zero divisor is an arithmetic error; an
    /// overflow error comes exactly when the unreduced result leaves
    /// the representable range.
    pub fn div(self, o: Number) -> (r: Result<Number, EvalError>)
        requires
            self.wf(),
            o.wf(),
        ensures
            (match r {
                Ok(x) => o.num != 0 && x.wf() && x.pair() == spec_div(self.pair(), o.pair())
                    && fits(spec_div(self.pair(), o.pair()).0, spec_div(self.pair(), o.pair()).1),
                Err(e) => (e == EvalError::ArithmeticError && o.num == 0)
                    || (e == EvalError::Overflow && o.num != 0
                        && !fits(spec_div(self.pair(), o.pair()).0, spec_div(self.pair(), o.pair()).1)),
            }),
    {
        if o.num == 0 {
            return Err(EvalError::ArithmeticError);
        }
        proof {
            lemma_mul_bound(self.num as int, o.den as int, NUM_LIMIT as int);
            lemma_mul_bound(self.den as int, o.num as int, NUM_LIMIT as int);
        }
        let n0: i128 = self.num * o.den;
        let d0: i128 = self.den * o.num;
        let (n, d): (i128, i128) = if o.num < 0 { (-n0, -d0) } else { (n0, d0) };
        proof {
            lemma_mul_pos(self.den as int, if o.num < 0 { -(o.num as int) } else { o.num as int });
        }
        if -NUM_LIMIT <= n && n <= NUM_LIMIT && 0 < d && d <= NUM_LIMIT {
            Ok(Number { num: n, den: d })
        } else {
            Err(EvalError::Overflow)
        }
    }

    /// Exact remainder, truncated-quotient style: the result carries
    /// the sign of the dividend.  A zero divisor is an arithmetic
    /// error; an overflow error comes exactly when the result leaves
    /// the representable range.
    pub fn rem(self, o: Number) -> (r: Result<Number, EvalError>)
        requires
            self.wf(),
            o.wf(),
        ensures
            (match r {
                Ok(x) => o.num != 0 && x.wf() && x.pair() == spec_rem(self.pair(), o.pair())
                    && fits(spec_rem(self.pair(), o.pair()).0, spec_rem(self.pair(), o.pair()).1),
                Err(e) => (e == EvalError::ArithmeticError && o.num == 0)
                    || (e == EvalError::Overflow && o.num != 0
                        && !fits(spec_rem(self.pair(), o.pair()).0, spec_rem(self.pair(), o.pair()).1)),
            }),
    {
        if o.num == 0 {
            return Err(EvalError::ArithmeticError);
        }
        proof {
            lemma_mul_bound(self.num as int, o.den as int, NUM_LIMIT as int);
            lemma_mul_bound(self.den as int, o.num as int, NUM_LIMIT as int);
            lemma_mul_bound(self.den as int, o.den as int, NUM_LIMIT as int);
            lemma_mul_pos(self.den as int, o.den as int);
            lemma_mul_nonzero(self.den as int, o.num as int);
        }
        let n1: i128 = self.num * o.den;
        let d1: i128 = self.den * o.num;
        let pa: u128 = (if n1 < 0 { -n1 } else { n1 }) as u128;
        let pb: u128 = (if d1 < 0 { -d1 } else { d1 }) as u128;
        let rm: u128 = pa % pb;
        let rn: i128 = if n1 < 0 { -(rm as i128) } else { rm as i128 };
        let d: i128 = self.den * o.den;
        if -NUM_LIMIT <= rn && rn <= NUM_LIMIT && d <= NUM_LIMIT {
            Ok(Number { num: rn, den: d })
        } else {
            Err(EvalError::Overflow)
        }
    }

    /// Renders the exact value in decimal: a whole value has no
    /// fractional part, any other value gets a point and its digits
    /// per `spec_frac_digits`.
    pub fn render(self) -> (r: String)
        requires
            self.wf(),
        ensures
            r@ == spec_render(self.num as int, self.den as int),
    {
        let neg = self.num < 0;
        let a: u128 = if self.num < 0 { (-self.num) as u128 } else { self.num as u128 };
        let q: u128 = self.den as u128;
        let ip: u128 = a / q;
        let rm: u128 = a % q;
        let mut s = String::new();
        if neg {
            proof { reveal_strlit("-"); assert("-"@ =~= seq!['-']); }
            s.append("-");
        }
        push_int_digits(&mut s, ip);
        if rm != 0 {
            proof { reveal_strlit("."); assert("."@ =~= seq!['.']); }
            s.append(".");
            push_frac_digits(&mut s, rm, q, FRAC_LIMIT);
        }
        proof {
            assert(s@ =~= spec_render(self.num as int, self.den as int));
        }
        s
    }
}

} // verus!
