//! Canonical ordering and the rewrite engine: smart constructors that order
//! commutative operands and fold local algebraic identities, beside the raw
//! constructors that build plain nodes.

use vstd::prelude::*;

use crate::expr::{size, Expr};

verus! {

/// The canonical rank of a node: variables come first, ascending by index,
/// then `Not`, `Xor`, `And`, `Or`. Index-aware ranking of variables is what
/// lets the negation and xor patterns match reliably across
/// differently-constructed operands.
pub open spec fn spec_prec(e: Expr) -> int {
    match e {
        Expr::Var(id) => id as int,
        Expr::Not(_) => 256,
        Expr::Xor(_, _) => 257,
        Expr::And(_, _) => 258,
        Expr::Or(_, _) => 259,
    }
}

/// The two operands of a commutative operator in canonical order: the one of
/// lower rank first. Ranks that tie keep the original order.
pub open spec fn spec_sort(lhs: Expr, rhs: Expr) -> (Expr, Expr) {
    if spec_prec(lhs) > spec_prec(rhs) {
        (rhs, lhs)
    } else {
        (lhs, rhs)
    }
}

/// What `not` builds: double negation is unwrapped, anything else is
/// wrapped in a `Not` node.
pub open spec fn spec_not(e: Expr) -> Expr {
    match e {
        Expr::Not(x) => *x,
        _ => Expr::Not(Box::new(e)),
    }
}

/// What `xor` builds: a plain `Xor` node over the ordered operands; no
/// further identity is folded at this level.
pub open spec fn spec_xor(lhs: Expr, rhs: Expr) -> Expr {
    let (a, b) = spec_sort(lhs, rhs);
    Expr::Xor(Box::new(a), Box::new(b))
}

/// What `and` builds: the operands are ordered, then the first matching
/// identity applies. Equal operands collapse (idempotence); two negations
/// are pressed into one over an inner conjunction; the pair
/// `(Not(And(c,d)), Or(c,d))` is recognized as `Xor(c,d)`; otherwise a
/// plain `And` node is built.
pub open spec fn spec_and(lhs: Expr, rhs: Expr) -> Expr
    decreases size(lhs) + size(rhs),
{
    let (a, b) = spec_sort(lhs, rhs);
    if a == b {
        a
    } else {
        match (a, b) {
            (Expr::Not(x), Expr::Not(y)) => spec_not(spec_and(*x, *y)),
            (Expr::Not(x), Expr::Or(c, d)) => match *x {
                Expr::And(p, q) => if p == c && q == d {
                    spec_xor(*c, *d)
                } else {
                    Expr::And(Box::new(a), Box::new(b))
                },
                _ => Expr::And(Box::new(a), Box::new(b)),
            },
            _ => Expr::And(Box::new(a), Box::new(b)),
        }
    }
}

/// What `or` builds: the operands are ordered, then the first matching
/// identity applies. Equal operands collapse; the pair
/// `(Not(Or(c,d)), And(c,d))` is recognized as `Not(Xor(c,d))`; otherwise a
/// plain `Or` node is built.
pub open spec fn spec_or(lhs: Expr, rhs: Expr) -> Expr {
    let (a, b) = spec_sort(lhs, rhs);
    if a == b {
        a
    } else {
        match (a, b) {
            (Expr::Not(x), Expr::And(c, d)) => match *x {
                Expr::Or(p, q) => if p == c && q == d {
                    spec_not(spec_xor(*c, *d))
                } else {
                    Expr::Or(Box::new(a), Box::new(b))
                },
                _ => Expr::Or(Box::new(a), Box::new(b)),
            },
            _ => Expr::Or(Box::new(a), Box::new(b)),
        }
    }
}

/// The canonical rank of a node, as an executable value.
pub fn prec(e: &Expr) -> (r: u16)
    ensures
        r as int == spec_prec(*e),
{
    match e {
        Expr::Var(id) => *id as u16,
        Expr::Not(_) => 256,
        Expr::Xor(_, _) => 257,
        Expr::And(_, _) => 258,
        Expr::Or(_, _) => 259,
    }
}

/// Returns the two operands in canonical order.
pub fn sort(lhs: Expr, rhs: Expr) -> (r: (Expr, Expr))
    ensures
        r == spec_sort(lhs, rhs),
{
    let pl = prec(&lhs);
    let pr = prec(&rhs);
    if pl > pr {
        (rhs, lhs)
    } else {
        (lhs, rhs)
    }
}

/// Swaps the two operands in place when they are out of canonical order.
pub fn sort_mut(lhs: &mut Expr, rhs: &mut Expr)
    ensures
        (*final(lhs), *final(rhs)) == spec_sort(*old(lhs), *old(rhs)),
{
    let pl = prec(lhs);
    let pr = prec(rhs);
    if pl > pr {
        core::mem::swap(lhs, rhs);
    }
}

/// Builds a plain `Not` node, folding nothing.
pub fn raw_not(expr: Expr) -> (r: Expr)
    ensures
        r == Expr::Not(Box::new(expr)),
{
    Expr::Not(Box::new(expr))
}

/// Negation through the rewrite engine: unwraps a double negation, else
/// wraps the operand in a `Not` node.
pub fn not(expr: Expr) -> (r: Expr)
    ensures
        r == spec_not(expr),
{
    match expr {
        Expr::Not(inner) => *inner,
        other => raw_not(other),
    }
}

/// Builds a plain `Xor` node, folding nothing and not reordering.
pub fn raw_xor(lhs: Expr, rhs: Expr) -> (r: Expr)
    ensures
        r == Expr::Xor(Box::new(lhs), Box::new(rhs)),
{
    Expr::Xor(Box::new(lhs), Box::new(rhs))
}

/// Exclusive or through the rewrite engine: orders the operands and builds
/// a plain `Xor` node.
pub fn xor(lhs: Expr, rhs: Expr) -> (r: Expr)
    ensures
        r == spec_xor(lhs, rhs),
{
    let (a, b) = sort(lhs, rhs);
    raw_xor(a, b)
}

/// Builds a plain `And` node, folding nothing and not reordering.
pub fn raw_and(lhs: Expr, rhs: Expr) -> (r: Expr)
    ensures
        r == Expr::And(Box::new(lhs), Box::new(rhs)),
{
    Expr::And(Box::new(lhs), Box::new(rhs))
}

/// Conjunction through the rewrite engine: orders the operands, then the
/// first matching identity applies (see [`spec_and`]).
pub fn and(lhs: Expr, rhs: Expr) -> (r: Expr)
    ensures
        r == spec_and(lhs, rhs),
    decreases size(lhs) + size(rhs),
{
    let (a, b) = sort(lhs, rhs);
    if a == b {
        return a;
    }
    match (a, b) {
        (Expr::Not(x), Expr::Not(y)) => not(and(*x, *y)),
        (Expr::Not(x), Expr::Or(c, d)) => match *x {
            Expr::And(p, q) => {
                if *p == *c && *q == *d {
                    xor(*c, *d)
                } else {
                    raw_and(raw_not(raw_and(*p, *q)), Expr::Or(c, d))
                }
            }
            other => raw_and(raw_not(other), Expr::Or(c, d)),
        },
        (a2, b2) => raw_and(a2, b2),
    }
}

/// Builds a plain `Or` node, folding nothing and not reordering.
pub fn raw_or(lhs: Expr, rhs: Expr) -> (r: Expr)
    ensures
        r == Expr::Or(Box::new(lhs), Box::new(rhs)),
{
    Expr::Or(Box::new(lhs), Box::new(rhs))
}

/// Disjunction through the rewrite engine: orders the operands, then the
/// first matching identity applies (see [`spec_or`]).
pub fn or(lhs: Expr, rhs: Expr) -> (r: Expr)
    ensures
        r == spec_or(lhs, rhs),
{
    let (a, b) = sort(lhs, rhs);
    if a == b {
        return a;
    }
    match (a, b) {
        (Expr::Not(x), Expr::And(c, d)) => match *x {
            Expr::Or(p, q) => {
                if *p == *c && *q == *d {
                    not(xor(*c, *d))
                } else {
                    raw_or(raw_not(raw_or(*p, *q)), Expr::And(c, d))
                }
            }
            other => raw_or(raw_not(other), Expr::And(c, d)),
        },
        (a2, b2) => raw_or(a2, b2),
    }
}

} // verus!
