//! The parser: recursive descent over the token sequence, building
//! an abstract syntax tree that encodes precedence and associativity.
//!
//! The grammar, lowest precedence first:
//!
//! ```text
//! expr    = mul ('+' mul | '-' mul)*;
//! mul     = unary ('*' unary | '/' unary | '%' unary)*;
//! unary   = ('+' | '-')? primary;
//! primary = num | '(' expr ')';
//! ```
//!
//! Binary chains fold to the left.  A leading minus becomes a
//! subtraction from zero.  A primary that matches nothing yields an
//! absent node, which only a whole expression may be (nothing to
//! evaluate): wherever an operand is demanded — after a sign, after a
//! binary operator, inside parentheses — absence is a syntax error at
//! parse time, so a successful parse never holds an operator node
//! with a missing child (see `wf`).

use vstd::prelude::*;
use crate::number::{EvalError, Number};
use crate::token::TokenKind;

verus! {

/// What a tree node is: a binary operator or a numeric leaf.
#[derive(Debug)]
pub enum AstKind {
    ADD,
    SUB,
    MUL,
    DIV,
    REM,
    NUM(Number),
}

/// A node of the abstract syntax tree.  Operator nodes own their two
/// children; leaves have none.  A tree is built bottom-up and never
/// changed afterwards.
#[derive(Debug)]
pub struct Ast {
    pub kind: AstKind,
    pub lnode: Option<Box<Ast>>,
    pub rnode: Option<Box<Ast>>,
}

/// Every numeric payload in the tree is in the representable range.
pub open spec fn nums_wf(a: Ast) -> bool
    decreases a,
{
    &&& (match a.kind {
        AstKind::NUM(n) => n.wf(),
        _ => true,
    })
    &&& (match a.lnode {
        Some(l) => nums_wf(*l),
        None => true,
    })
    &&& (match a.rnode {
        Some(r) => nums_wf(*r),
        None => true,
    })
}

/// Every numeric payload in the possibly absent tree is in range.
pub open spec fn nums_wf_opt(o: Option<Box<Ast>>) -> bool {
    match o {
        Some(t) => nums_wf(*t),
        None => true,
    }
}

/// The tree is structurally sound: every operator node has both
/// children present, and a leaf has none.  Every tree a successful
/// parse yields satisfies this.
pub open spec fn wf(a: Ast) -> bool
    decreases a,
{
    match a.kind {
        AstKind::NUM(_) => a.lnode is None && a.rnode is None,
        _ => match (a.lnode, a.rnode) {
            (Some(l), Some(r)) => wf(*l) && wf(*r),
            _ => false,
        },
    }
}

/// The possibly absent tree is structurally sound.
pub open spec fn wf_opt(o: Option<Box<Ast>>) -> bool {
    match o {
        Some(t) => wf(*t),
        None => true,
    }
}

/// Every numeric payload in the token sequence is in range.
pub open spec fn tokens_wf(s: Seq<TokenKind>) -> bool {
    forall|k: int| 0 <= k < s.len() ==> s[k].wf()
}

/// A leaf node for a literal.
pub open spec fn spec_leaf(n: Number) -> Option<Box<Ast>> {
    Some(Box::new(Ast { kind: AstKind::NUM(n), lnode: None, rnode: None }))
}

/// An operator node over two possibly absent operands.
pub open spec fn spec_node(kind: AstKind, l: Option<Box<Ast>>, r: Option<Box<Ast>>) -> Option<
    Box<Ast>,
> {
    Some(Box::new(Ast { kind: kind, lnode: l, rnode: r }))
}

/// Parses one `primary`: a literal, or a parenthesized expression
/// whose closing parenthesis, and the presence of an expression
/// between the parentheses, are demanded on pain of a syntax error.
/// Anything else is an absent node, left to the caller.
pub open spec fn spec_primary(s: Seq<TokenKind>, i: int) -> Result<
    (Option<Box<Ast>>, int),
    EvalError,
>
    decreases s.len() - i, 0int,
{
    if !(0 <= i < s.len()) {
        Ok((None, i))
    } else {
        match s[i] {
            TokenKind::LPAREN => match spec_expr(s, i + 1) {
                Err(e) => Err(e),
                Ok((node, j)) => {
                    if !(0 <= j < s.len() && s[j] is RPAREN) {
                        Err(EvalError::SyntaxError)
                    } else if node is None {
                        Err(EvalError::SyntaxError)
                    } else {
                        Ok((node, j + 1))
                    }
                },
            },
            TokenKind::NUM(n) => Ok((spec_leaf(n), i + 1)),
            _ => Ok((None, i)),
        }
    }
}

/// Parses one `unary`: an optional sign before a primary.  A leading
/// minus becomes a subtraction from zero; a minus with no operand
/// after it is a syntax error.
pub open spec fn spec_unary(s: Seq<TokenKind>, i: int) -> Result<
    (Option<Box<Ast>>, int),
    EvalError,
>
    decreases s.len() - i, 1int,
{
    if 0 <= i < s.len() && s[i] is PLUS {
        spec_primary(s, i + 1)
    } else if 0 <= i < s.len() && s[i] is MINUS {
        match spec_primary(s, i + 1) {
            Err(e) => Err(e),
            Ok((node, j)) => {
                if node is None {
                    Err(EvalError::SyntaxError)
                } else {
                    Ok((spec_node(AstKind::SUB, spec_leaf(Number { num: 0, den: 1 }), node), j))
                }
            },
        }
    } else {
        spec_primary(s, i)
    }
}

/// Folds further `* / %` steps onto an accumulated node, left to
/// right.  An illegal token found while an operator could come next
/// is the lexical fault it marks.
pub open spec fn spec_mul_rest(s: Seq<TokenKind>, i: int, node: Option<Box<Ast>>) -> Result<
    (Option<Box<Ast>>, int),
    EvalError,
>
    decreases s.len() - i, 2int,
{
    if !(0 <= i < s.len()) {
        Ok((node, i))
    } else {
        match s[i] {
            TokenKind::ILLEGAL(c) => Err(EvalError::LexicalError(c)),
            TokenKind::ASTERISK => match spec_unary(s, i + 1) {
                Err(e) => Err(e),
                Ok((n2, j)) => {
                    if j <= i || j > s.len() {
                        Err(EvalError::SyntaxError)  // never reached: parsing moves forward
                    } else if node is None || n2 is None {
                        Err(EvalError::SyntaxError)
                    } else {
                        spec_mul_rest(s, j, spec_node(AstKind::MUL, node, n2))
                    }
                },
            },
            TokenKind::SLASH => match spec_unary(s, i + 1) {
                Err(e) => Err(e),
                Ok((n2, j)) => {
                    if j <= i || j > s.len() {
                        Err(EvalError::SyntaxError)  // never reached: parsing moves forward
                    } else if node is None || n2 is None {
                        Err(EvalError::SyntaxError)
                    } else {
                        spec_mul_rest(s, j, spec_node(AstKind::DIV, node, n2))
                    }
                },
            },
            TokenKind::PERCENT => match spec_unary(s, i + 1) {
                Err(e) => Err(e),
                Ok((n2, j)) => {
                    if j <= i || j > s.len() {
                        Err(EvalError::SyntaxError)  // never reached: parsing moves forward
                    } else if node is None || n2 is None {
                        Err(EvalError::SyntaxError)
                    } else {
                        spec_mul_rest(s, j, spec_node(AstKind::REM, node, n2))
                    }
                },
            },
            _ => Ok((node, i)),
        }
    }
}

/// Parses one `mul`: a unary and any `* / %` steps after it.
pub open spec fn spec_mul(s: Seq<TokenKind>, i: int) -> Result<
    (Option<Box<Ast>>, int),
    EvalError,
>
    decreases s.len() - i, 3int,
{
    match spec_unary(s, i) {
        Err(e) => Err(e),
        Ok((node, j)) => {
            if j < i || j > s.len() {
                Err(EvalError::SyntaxError)  // never reached: parsing never moves backward
            } else {
                spec_mul_rest(s, j, node)
            }
        },
    }
}

/// Folds further `+ -` steps onto an accumulated node, left to
/// right.  An illegal token found while an operator could come next
/// is the lexical fault it marks.
pub open spec fn spec_expr_rest(s: Seq<TokenKind>, i: int, node: Option<Box<Ast>>) -> Result<
    (Option<Box<Ast>>, int),
    EvalError,
>
    decreases s.len() - i, 4int,
{
    if !(0 <= i < s.len()) {
        Ok((node, i))
    } else {
        match s[i] {
            TokenKind::ILLEGAL(c) => Err(EvalError::LexicalError(c)),
            TokenKind::PLUS => match spec_mul(s, i + 1) {
                Err(e) => Err(e),
                Ok((n2, j)) => {
                    if j <= i || j > s.len() {
                        Err(EvalError::SyntaxError)  // never reached: parsing moves forward
                    } else if node is None || n2 is None {
                        Err(EvalError::SyntaxError)
                    } else {
                        spec_expr_rest(s, j, spec_node(AstKind::ADD, node, n2))
                    }
                },
            },
            TokenKind::MINUS => match spec_mul(s, i + 1) {
                Err(e) => Err(e),
                Ok((n2, j)) => {
                    if j <= i || j > s.len() {
                        Err(EvalError::SyntaxError)  // never reached: parsing moves forward
                    } else if node is None || n2 is None {
                        Err(EvalError::SyntaxError)
                    } else {
                        spec_expr_rest(s, j, spec_node(AstKind::SUB, node, n2))
                    }
                },
            },
            _ => Ok((node, i)),
        }
    }
}

/// Parses one `expr`: a mul and any `+ -` steps after it.
pub open spec fn spec_expr(s: Seq<TokenKind>, i: int) -> Result<
    (Option<Box<Ast>>, int),
    EvalError,
>
    decreases s.len() - i, 5int,
{
    match spec_mul(s, i) {
        Err(e) => Err(e),
        Ok((node, j)) => {
            if j < i || j > s.len() {
                Err(EvalError::SyntaxError)  // never reached: parsing never moves backward
            } else {
                spec_expr_rest(s, j, node)
            }
        },
    }
}

/// Parses a whole token sequence: the tree of the leading `expr`.
/// Tokens after it are ignored, as the grammar's single reader would
/// leave them unread.
pub open spec fn spec_parse(s: Seq<TokenKind>) -> Result<Option<Box<Ast>>, EvalError> {
    match spec_expr(s, 0) {
        Err(e) => Err(e),
        Ok((node, _)) => Ok(node),
    }
}

/// A read cursor over the token sequence, shared by the grammar
/// procedures.
struct Tokens<'a> {
    tokens: &'a Vec<TokenKind>,
    idx: usize,
}

impl<'a> Tokens<'a> {
    /// The tokens being read.
    spec fn toks(self) -> Seq<TokenKind> {
        self.tokens@
    }

    /// The current read position.
    spec fn at(self) -> int {
        self.idx as int
    }

    /// The cursor is inside its sequence and every numeric payload is
    /// in range.
    spec fn wf(self) -> bool {
        self.at() <= self.toks().len() && tokens_wf(self.toks())
    }

    /// A cursor at the start of the sequence.
    fn new(tokens: &'a Vec<TokenKind>) -> (t: Tokens<'a>)
        ensures
            t.toks() == tokens@,
            t.at() == 0,
    {
        Tokens { tokens, idx: 0 }
    }

    /// Whether the tokens are exhausted.
    fn eof(&self) -> (b: bool)
        ensures
            b == (self.toks().len() <= self.at()),
    {
        self.tokens.len() <= self.idx
    }

    /// Consumes the current token if it is `kind`; says whether it
    /// did.  Only kinds without a payload are looked for.
    fn consume(&mut self, kind: TokenKind) -> (b: bool)
        requires
            old(self).wf(),
            !(kind is NUM),
            !(kind is ILLEGAL),
        ensures
            final(self).toks() == old(self).toks(),
            final(self).wf(),
            b == (old(self).at() < old(self).toks().len()
                && old(self).toks()[old(self).at()] == kind),
            final(self).at() == if b { old(self).at() + 1 } else { old(self).at() },
    {
        if self.tokens.len() <= self.idx {
            return false;
        }
        let cur = self.tokens[self.idx];
        let b = match (cur, kind) {
            (TokenKind::PLUS, TokenKind::PLUS) => true,
            (TokenKind::MINUS, TokenKind::MINUS) => true,
            (TokenKind::ASTERISK, TokenKind::ASTERISK) => true,
            (TokenKind::SLASH, TokenKind::SLASH) => true,
            (TokenKind::PERCENT, TokenKind::PERCENT) => true,
            (TokenKind::LPAREN, TokenKind::LPAREN) => true,
            (TokenKind::RPAREN, TokenKind::RPAREN) => true,
            (TokenKind::EOF, TokenKind::EOF) => true,
            _ => false,
        };
        if b {
            self.idx = self.idx + 1;
        }
        b
    }

    /// Demands the current token be `kind` and consumes it; a missing
    /// or different token is a syntax error.
    fn expect(&mut self, kind: TokenKind) -> (r: Result<(), EvalError>)
        requires
            old(self).wf(),
            !(kind is NUM),
            !(kind is ILLEGAL),
        ensures
            final(self).toks() == old(self).toks(),
            final(self).wf(),
            (if old(self).at() < old(self).toks().len()
                && old(self).toks()[old(self).at()] == kind {
                r == Ok::<(), EvalError>(()) && final(self).at() == old(self).at() + 1
            } else {
                r == Err::<(), EvalError>(EvalError::SyntaxError)
                    && final(self).at() == old(self).at()
            }),
    {
        if self.consume(kind) {
            Ok(())
        } else {
            Err(EvalError::SyntaxError)
        }
    }

    /// Demands the current token be a numeric literal and consumes
    /// it, handing its value out; anything else is a syntax error.
    fn expect_number(&mut self) -> (r: Result<Number, EvalError>)
        requires
            old(self).wf(),
        ensures
            final(self).toks() == old(self).toks(),
            final(self).wf(),
            (match r {
                Ok(n) => old(self).at() < old(self).toks().len()
                    && old(self).toks()[old(self).at()] == TokenKind::NUM(n) && n.wf()
                    && final(self).at() == old(self).at() + 1,
                Err(e) => e == EvalError::SyntaxError && final(self).at() == old(self).at()
                    && !(old(self).at() < old(self).toks().len()
                        && old(self).toks()[old(self).at()] is NUM),
            }),
    {
        if self.tokens.len() <= self.idx {
            return Err(EvalError::SyntaxError);
        }
        match self.tokens[self.idx] {
            TokenKind::NUM(n) => {
                assert(self.toks()[self.at()].wf());
                self.idx = self.idx + 1;
                Ok(n)
            },
            _ => Err(EvalError::SyntaxError),
        }
    }

    /// Reports the lexical fault the current token marks, if it is an
    /// illegal-character token.
    fn check_illegal(&self) -> (r: Result<(), EvalError>)
        ensures
            (match r {
                Ok(()) => !(self.at() < self.toks().len() && self.toks()[self.at()] is ILLEGAL),
                Err(e) => self.at() < self.toks().len()
                    && self.toks()[self.at()] == TokenKind::ILLEGAL(e->LexicalError_0)
                    && e is LexicalError,
            }),
    {
        if self.tokens.len() <= self.idx {
            return Ok(());
        }
        match self.tokens[self.idx] {
            TokenKind::ILLEGAL(c) => Err(EvalError::LexicalError(c)),
            _ => Ok(()),
        }
    }
}

/// Parses one `primary`, as `spec_primary` says.
fn primary(t: &mut Tokens) -> (r: Result<Option<Box<Ast>>, EvalError>)
    requires
        old(t).wf(),
    ensures
        final(t).toks() == old(t).toks(),
        final(t).wf(),
        old(t).at() <= final(t).at(),
        (match spec_primary(old(t).toks(), old(t).at()) {
            Ok((node, j)) => r == Ok::<Option<Box<Ast>>, EvalError>(node) && final(t).at() == j
                && nums_wf_opt(node) && wf_opt(node),
            Err(e) => r == Err::<Option<Box<Ast>>, EvalError>(e),
        }),
    decreases old(t).toks().len() - old(t).at(), 0int,
{
    if t.consume(TokenKind::LPAREN) {
        let node = match expr(t) {
            Ok(n) => n,
            Err(e) => {
                return Err(e);
            },
        };
        match t.expect(TokenKind::RPAREN) {
            Ok(()) => {
                if node.is_none() {
                    Err(EvalError::SyntaxError)
                } else {
                    Ok(node)
                }
            },
            Err(e) => Err(e),
        }
    } else {
        match t.expect_number() {
            Ok(n) => Ok(Some(Box::new(Ast { kind: AstKind::NUM(n), lnode: None, rnode: None }))),
            Err(_) => Ok(None),
        }
    }
}

/// Parses one `unary`, as `spec_unary` says.
fn unary(t: &mut Tokens) -> (r: Result<Option<Box<Ast>>, EvalError>)
    requires
        old(t).wf(),
    ensures
        final(t).toks() == old(t).toks(),
        final(t).wf(),
        old(t).at() <= final(t).at(),
        (match spec_unary(old(t).toks(), old(t).at()) {
            Ok((node, j)) => r == Ok::<Option<Box<Ast>>, EvalError>(node) && final(t).at() == j
                && nums_wf_opt(node) && wf_opt(node),
            Err(e) => r == Err::<Option<Box<Ast>>, EvalError>(e),
        }),
    decreases old(t).toks().len() - old(t).at(), 1int,
{
    if t.consume(TokenKind::PLUS) {
        primary(t)
    } else if t.consume(TokenKind::MINUS) {
        match primary(t) {
            Ok(node) => {
                if node.is_none() {
                    return Err(EvalError::SyntaxError);
                }
                let zero = Ast {
                    kind: AstKind::NUM(Number { num: 0, den: 1 }),
                    lnode: None,
                    rnode: None,
                };
                assert(nums_wf(zero));
                assert(wf(zero));
                Ok(
                    Some(
                        Box::new(
                            Ast { kind: AstKind::SUB, lnode: Some(Box::new(zero)), rnode: node },
                        ),
                    ),
                )
            },
            Err(e) => Err(e),
        }
    } else {
        primary(t)
    }
}

/// Folds further `* / %` steps, as `spec_mul_rest` says.
fn mul_rest(t: &mut Tokens, node: Option<Box<Ast>>) -> (r: Result<Option<Box<Ast>>, EvalError>)
    requires
        old(t).wf(),
        nums_wf_opt(node),
        wf_opt(node),
    ensures
        final(t).toks() == old(t).toks(),
        final(t).wf(),
        old(t).at() <= final(t).at(),
        (match spec_mul_rest(old(t).toks(), old(t).at(), node) {
            Ok((n2, j)) => r == Ok::<Option<Box<Ast>>, EvalError>(n2) && final(t).at() == j
                && nums_wf_opt(n2) && wf_opt(n2),
            Err(e) => r == Err::<Option<Box<Ast>>, EvalError>(e),
        }),
    decreases old(t).toks().len() - old(t).at(), 2int,
{
    if t.eof() {
        return Ok(node);
    }
    match t.check_illegal() {
        Ok(()) => (),
        Err(e) => {
            return Err(e);
        },
    };
    if t.consume(TokenKind::ASTERISK) {
        match unary(t) {
            Ok(n2) => {
                if node.is_none() || n2.is_none() {
                    return Err(EvalError::SyntaxError);
                }
                mul_rest(t, Some(Box::new(Ast { kind: AstKind::MUL, lnode: node, rnode: n2 })))
            },
            Err(e) => Err(e),
        }
    } else if t.consume(TokenKind::SLASH) {
        match unary(t) {
            Ok(n2) => {
                if node.is_none() || n2.is_none() {
                    return Err(EvalError::SyntaxError);
                }
                mul_rest(t, Some(Box::new(Ast { kind: AstKind::DIV, lnode: node, rnode: n2 })))
            },
            Err(e) => Err(e),
        }
    } else if t.consume(TokenKind::PERCENT) {
        match unary(t) {
            Ok(n2) => {
                if node.is_none() || n2.is_none() {
                    return Err(EvalError::SyntaxError);
                }
                mul_rest(t, Some(Box::new(Ast { kind: AstKind::REM, lnode: node, rnode: n2 })))
            },
            Err(e) => Err(e),
        }
    } else {
        Ok(node)
    }
}

/// Parses one `mul`, as `spec_mul` says.
fn mul(t: &mut Tokens) -> (r: Result<Option<Box<Ast>>, EvalError>)
    requires
        old(t).wf(),
    ensures
        final(t).toks() == old(t).toks(),
        final(t).wf(),
        old(t).at() <= final(t).at(),
        (match spec_mul(old(t).toks(), old(t).at()) {
            Ok((node, j)) => r == Ok::<Option<Box<Ast>>, EvalError>(node) && final(t).at() == j
                && nums_wf_opt(node) && wf_opt(node),
            Err(e) => r == Err::<Option<Box<Ast>>, EvalError>(e),
        }),
    decreases old(t).toks().len() - old(t).at(), 3int,
{
    match unary(t) {
        Ok(node) => mul_rest(t, node),
        Err(e) => Err(e),
    }
}

/// Folds further `+ -` steps, as `spec_expr_rest` says.
fn expr_rest(t: &mut Tokens, node: Option<Box<Ast>>) -> (r: Result<Option<Box<Ast>>, EvalError>)
    requires
        old(t).wf(),
        nums_wf_opt(node),
        wf_opt(node),
    ensures
        final(t).toks() == old(t).toks(),
        final(t).wf(),
        old(t).at() <= final(t).at(),
        (match spec_expr_rest(old(t).toks(), old(t).at(), node) {
            Ok((n2, j)) => r == Ok::<Option<Box<Ast>>, EvalError>(n2) && final(t).at() == j
                && nums_wf_opt(n2) && wf_opt(n2),
            Err(e) => r == Err::<Option<Box<Ast>>, EvalError>(e),
        }),
    decreases old(t).toks().len() - old(t).at(), 4int,
{
    if t.eof() {
        return Ok(node);
    }
    match t.check_illegal() {
        Ok(()) => (),
        Err(e) => {
            return Err(e);
        },
    };
    if t.consume(TokenKind::PLUS) {
        match self::mul(t) {
            Ok(n2) => {
                if node.is_none() || n2.is_none() {
                    return Err(EvalError::SyntaxError);
                }
                expr_rest(t, Some(Box::new(Ast { kind: AstKind::ADD, lnode: node, rnode: n2 })))
            },
            Err(e) => Err(e),
        }
    } else if t.consume(TokenKind::MINUS) {
        match self::mul(t) {
            Ok(n2) => {
                if node.is_none() || n2.is_none() {
                    return Err(EvalError::SyntaxError);
                }
                expr_rest(t, Some(Box::new(Ast { kind: AstKind::SUB, lnode: node, rnode: n2 })))
            },
            Err(e) => Err(e),
        }
    } else {
        Ok(node)
    }
}

/// Parses one `expr`, as `spec_expr` says.
fn expr(t: &mut Tokens) -> (r: Result<Option<Box<Ast>>, EvalError>)
    requires
        old(t).wf(),
    ensures
        final(t).toks() == old(t).toks(),
        final(t).wf(),
        old(t).at() <= final(t).at(),
        (match spec_expr(old(t).toks(), old(t).at()) {
            Ok((node, j)) => r == Ok::<Option<Box<Ast>>, EvalError>(node) && final(t).at() == j
                && nums_wf_opt(node) && wf_opt(node),
            Err(e) => r == Err::<Option<Box<Ast>>, EvalError>(e),
        }),
    decreases old(t).toks().len() - old(t).at(), 5int,
{
    match self::mul(t) {
        Ok(node) => expr_rest(t, node),
        Err(e) => Err(e),
    }
}

/// Parses the token sequence into the tree of its leading `expr`, as
/// `spec_parse` says.  The tree's numeric payloads are in range
/// whenever the tokens' are.
pub fn new(tokens: &Vec<TokenKind>) -> (r: Result<Option<Box<Ast>>, EvalError>)
    requires
        tokens_wf(tokens@),
    ensures
        (match spec_parse(tokens@) {
            Ok(node) => r == Ok::<Option<Box<Ast>>, EvalError>(node) && nums_wf_opt(node) && wf_opt(node),
            Err(e) => r == Err::<Option<Box<Ast>>, EvalError>(e),
        }),
{
    let mut t = Tokens::new(tokens);
    expr(&mut t)
}

} // verus!
