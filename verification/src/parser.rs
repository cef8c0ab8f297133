//! The evaluator: walks the tree in post order with an explicit
//! value stack and produces the single exact result.
//!
//! On a leaf the value is pushed; on an operator node the left child
//! runs first, then the right, then the two topmost values come off
//! (right first) and the operation's exact result goes back on.  A
//! zero divisor is an arithmetic error.  An absent node where an
//! operand was needed is a syntax error here too, though a successful
//! parse never yields such a tree: evaluation is defined for every
//! value of the tree type, not only for those the parser builds.

use vstd::prelude::*;
use crate::ast::{nums_wf_opt, Ast, AstKind};
use crate::number::{
    fits, spec_add, spec_div, spec_mul, spec_rem, spec_sub, EvalError, Number,
};

verus! {

/// The exact value of the possibly absent tree, as an unreduced
/// fraction, or the first fault of its post-order evaluation: a
/// missing operand, a zero divisor, or a result out of range.
pub open spec fn spec_run(o: Option<Box<Ast>>) -> Result<(int, int), EvalError>
    decreases o,
{
    match o {
        None => Err(EvalError::SyntaxError),
        Some(a) => match a.kind {
            AstKind::NUM(n) => Ok((n.num as int, n.den as int)),
            _ => match spec_run(a.lnode) {
                Err(e) => Err(e),
                Ok(j) => match spec_run(a.rnode) {
                    Err(e) => Err(e),
                    Ok(i) => match a.kind {
                        AstKind::ADD => {
                            let p = spec_add(j, i);
                            if fits(p.0, p.1) {
                                Ok(p)
                            } else {
                                Err(EvalError::Overflow)
                            }
                        },
                        AstKind::SUB => {
                            let p = spec_sub(j, i);
                            if fits(p.0, p.1) {
                                Ok(p)
                            } else {
                                Err(EvalError::Overflow)
                            }
                        },
                        AstKind::MUL => {
                            let p = spec_mul(j, i);
                            if fits(p.0, p.1) {
                                Ok(p)
                            } else {
                                Err(EvalError::Overflow)
                            }
                        },
                        AstKind::DIV => {
                            if i.0 == 0 {
                                Err(EvalError::ArithmeticError)
                            } else {
                                let p = spec_div(j, i);
                                if fits(p.0, p.1) {
                                    Ok(p)
                                } else {
                                    Err(EvalError::Overflow)
                                }
                            }
                        },
                        AstKind::REM => {
                            if i.0 == 0 {
                                Err(EvalError::ArithmeticError)
                            } else {
                                let p = spec_rem(j, i);
                                if fits(p.0, p.1) {
                                    Ok(p)
                                } else {
                                    Err(EvalError::Overflow)
                                }
                            }
                        },
                        AstKind::NUM(_) => Err(EvalError::SyntaxError),  // never reached
                    },
                },
            },
        },
    }
}

/// Evaluates the tree below `node` and pushes its exact value onto
/// `v`, as `spec_run` says; the first fault comes back instead, and
/// what stood on the stack before the call still stands untouched
/// below whatever partial results the abandoned evaluation left.
pub fn gen(node: &Option<Box<Ast>>, v: &mut Vec<Number>) -> (r: Result<(), EvalError>)
    requires
        nums_wf_opt(*node),
    ensures
        (match spec_run(*node) {
            Ok(p) => r == Ok::<(), EvalError>(()) && fits(p.0, p.1)
                && final(v)@ == old(v)@.push(Number { num: p.0 as i128, den: p.1 as i128 }),
            Err(e) => r == Err::<(), EvalError>(e),
        }),
        old(v)@.is_prefix_of(final(v)@),
    decreases *node,
{
    let a = match node {
        Some(a) => a,
        None => {
            return Err(EvalError::SyntaxError);
        },
    };
    if let AstKind::NUM(num) = a.kind {
        v.push(num);
        return Ok(());
    }
    match gen(&a.lnode, v) {
        Ok(()) => (),
        Err(e) => {
            return Err(e);
        },
    };
    match gen(&a.rnode, v) {
        Ok(()) => (),
        Err(e) => {
            return Err(e);
        },
    };
    let i = v.pop().unwrap();
    let j = v.pop().unwrap();
    let res = match a.kind {
        AstKind::ADD => j.add(i),
        AstKind::SUB => j.sub(i),
        AstKind::MUL => j.mul(i),
        AstKind::DIV => j.div(i),
        AstKind::REM => j.rem(i),
        AstKind::NUM(_) => {
            proof {
                assert(false);  // a leaf returned long before this match
            }
            Err(EvalError::SyntaxError)
        },
    };
    match res {
        Ok(n) => {
            v.push(n);
            proof {
                if let Ok(p) = spec_run(*node) {
                    assert(v@ =~= old(v)@.push(Number { num: p.0 as i128, den: p.1 as i128 }));
                }
            }
            Ok(())
        },
        Err(e) => Err(e),
    }
}

} // verus!
