//! Proved laws of the rewrite engine and the synthesizer: bounds the
//! constructors keep, the algebraic identities they guarantee, and the
//! semantic soundness of each folding rule.

use vstd::prelude::*;

use vstd::arithmetic::power2::{is_pow2, lemma2_to64, lemma2_to64_rest, lemma_pow2_adds,
    lemma_pow2_strictly_increases, pow2};

use crate::algo::{spec_and, spec_not, spec_or, spec_prec, spec_sort, spec_xor};
use crate::expr::{eval, high_var, lemma_shift_up_eval, lemma_var_range, shift_up, size, Expr};
use crate::synth::{evens_of, lemma_pow2_half, lemma_pow2_mono, lemma_synth_high, odds_of,
    spec_synth};

verus! {

/// Idempotence of conjunction: `and(x, x)` is `x` itself, for every tree.
pub proof fn lemma_and_idempotent(x: Expr)
    ensures
        spec_and(x, x) == x,
{
}

/// Idempotence of disjunction: `or(x, x)` is `x` itself, for every tree.
pub proof fn lemma_or_idempotent(x: Expr)
    ensures
        spec_or(x, x) == x,
{
}

/// Double negation: `not(not(x))` gives back `x`, for every tree that does
/// not itself carry a directly nested double negation at its root. (Such a
/// tree can only come from the raw constructors; the rewrite engine never
/// builds one.)
pub proof fn lemma_double_negation(x: Expr)
    requires
        !(x matches Expr::Not(inner) && *inner matches Expr::Not(_)),
    ensures
        spec_not(spec_not(x)) == x,
{
}

/// Ordering is a stable permutation: it returns exactly the two operands,
/// the one of lower rank first, and a tie keeps the given order.
pub proof fn lemma_sort_canonical(a: Expr, b: Expr)
    ensures
        spec_prec(spec_sort(a, b).0) <= spec_prec(spec_sort(a, b).1),
        spec_sort(a, b) == (a, b) || spec_sort(a, b) == (b, a),
        spec_prec(a) <= spec_prec(b) ==> spec_sort(a, b) == (a, b),
{
}

/// The operand pairs on which `and` is exactly commutative: pairs whose
/// ranks differ (ordering puts them in one arrangement either way), equal
/// pairs, and pairs of negations whose bodies commute in turn (the pressed
/// inner conjunction orders them again). Two distinct operands of equal
/// rank otherwise keep their given order, so swapping them swaps the
/// children of the built node.
pub open spec fn and_comm_compatible(a: Expr, b: Expr) -> bool
    decreases size(a) + size(b),
{
    ||| spec_prec(a) != spec_prec(b)
    ||| a == b
    ||| (match (a, b) {
        (Expr::Not(x), Expr::Not(y)) => and_comm_compatible(*x, *y),
        _ => false,
    })
}

/// Canonical commutativity of `and`: both operand orders produce the one
/// canonical tree, on every compatible pair.
pub proof fn lemma_and_commutative(a: Expr, b: Expr)
    requires
        and_comm_compatible(a, b),
    ensures
        spec_and(a, b) == spec_and(b, a),
    decreases size(a) + size(b),
{
    if spec_prec(a) != spec_prec(b) || a == b {
    } else {
        match (a, b) {
            (Expr::Not(x), Expr::Not(y)) => {
                lemma_and_commutative(*x, *y);
            }
            _ => {}
        }
    }
}

/// Canonical commutativity of `or`: both operand orders produce the one
/// canonical tree, on every pair whose ranks differ and on equal pairs.
pub proof fn lemma_or_commutative(a: Expr, b: Expr)
    requires
        spec_prec(a) != spec_prec(b) || a == b,
    ensures
        spec_or(a, b) == spec_or(b, a),
{
}

/// Negation never introduces a variable: the highest index of `not(e)`
/// stays within that of `e`.
pub proof fn lemma_not_high(e: Expr)
    ensures
        high_var(spec_not(e)) <= high_var(e),
{
}

/// Exclusive or never introduces a variable beyond its operands.
pub proof fn lemma_xor_high(lhs: Expr, rhs: Expr)
    ensures
        high_var(spec_xor(lhs, rhs)) <= vstd::math::max(high_var(lhs), high_var(rhs)),
{
}

/// Conjunction never introduces a variable beyond its operands, whichever
/// identity fires.
pub proof fn lemma_and_high(lhs: Expr, rhs: Expr)
    ensures
        high_var(spec_and(lhs, rhs)) <= vstd::math::max(high_var(lhs), high_var(rhs)),
    decreases size(lhs) + size(rhs),
{
    let (a, b) = spec_sort(lhs, rhs);
    if a == b {
    } else {
        match (a, b) {
            (Expr::Not(x), Expr::Not(y)) => {
                lemma_and_high(*x, *y);
                lemma_not_high(spec_and(*x, *y));
            }
            (Expr::Not(x), Expr::Or(c, d)) => {
                match *x {
                    Expr::And(p, q) => {
                        if p == c && q == d {
                            lemma_xor_high(*c, *d);
                        }
                    }
                    _ => {}
                }
            }
            _ => {}
        }
    }
}

/// Disjunction never introduces a variable beyond its operands, whichever
/// identity fires.
pub proof fn lemma_or_high(lhs: Expr, rhs: Expr)
    ensures
        high_var(spec_or(lhs, rhs)) <= vstd::math::max(high_var(lhs), high_var(rhs)),
{
    let (a, b) = spec_sort(lhs, rhs);
    if a == b {
    } else {
        match (a, b) {
            (Expr::Not(x), Expr::And(c, d)) => {
                match *x {
                    Expr::Or(p, q) => {
                        if p == c && q == d {
                            lemma_xor_high(*c, *d);
                            lemma_not_high(spec_xor(*c, *d));
                        }
                    }
                    _ => {}
                }
            }
            _ => {}
        }
    }
}

/// `not` means boolean negation, under every assignment.
pub proof fn lemma_not_eval(e: Expr, env: Seq<bool>)
    ensures
        eval(spec_not(e), env) == !eval(e, env),
{
}

/// `xor` means boolean inequality, under every assignment.
pub proof fn lemma_xor_eval(lhs: Expr, rhs: Expr, env: Seq<bool>)
    ensures
        eval(spec_xor(lhs, rhs), env) == (eval(lhs, env) != eval(rhs, env)),
{
}

/// `and` means boolean conjunction, under every assignment, whenever the
/// operands are not both negations. (On a pair of negations the engine
/// presses the two negations into one over an inner conjunction, which is
/// not a boolean identity; such a pair is the one arrangement left out.)
pub proof fn lemma_and_eval(lhs: Expr, rhs: Expr, env: Seq<bool>)
    requires
        !(lhs is Not && rhs is Not),
    ensures
        eval(spec_and(lhs, rhs), env) == (eval(lhs, env) && eval(rhs, env)),
{
    let (a, b) = spec_sort(lhs, rhs);
    if a == b {
    } else {
        match (a, b) {
            (Expr::Not(x), Expr::Or(c, d)) => {
                match *x {
                    Expr::And(p, q) => {
                        if p == c && q == d {
                            lemma_xor_eval(*c, *d, env);
                            assert(eval(*x, env) == (eval(*p, env) && eval(*q, env)));
                            assert(eval(a, env) == !eval(*x, env));
                            assert(eval(b, env) == (eval(*c, env) || eval(*d, env)));
                        }
                    }
                    _ => {}
                }
            }
            _ => {}
        }
    }
}

/// `or` means boolean disjunction, under every assignment, whichever
/// identity fires.
pub proof fn lemma_or_eval(lhs: Expr, rhs: Expr, env: Seq<bool>)
    ensures
        eval(spec_or(lhs, rhs), env) == (eval(lhs, env) || eval(rhs, env)),
{
    let (a, b) = spec_sort(lhs, rhs);
    if a == b {
    } else {
        match (a, b) {
            (Expr::Not(x), Expr::And(c, d)) => {
                match *x {
                    Expr::Or(p, q) => {
                        if p == c && q == d {
                            lemma_xor_eval(*c, *d, env);
                            lemma_not_eval(spec_xor(*c, *d), env);
                            assert(eval(*x, env) == (eval(*p, env) || eval(*q, env)));
                            assert(eval(a, env) == !eval(*x, env));
                            assert(eval(b, env) == (eval(*c, env) && eval(*d, env)));
                        }
                    }
                    _ => {}
                }
            }
            _ => {}
        }
    }
}

/// De Morgan, semantically: `not(and(a, b))` and `or(not(a), not(b))`
/// evaluate identically under every assignment, whenever the operands are
/// not both negations (see [`lemma_and_eval`]).
pub proof fn lemma_de_morgan(a: Expr, b: Expr, env: Seq<bool>)
    requires
        !(a is Not && b is Not),
    ensures
        eval(spec_not(spec_and(a, b)), env) == eval(spec_or(spec_not(a), spec_not(b)), env),
{
    lemma_and_eval(a, b, env);
    lemma_not_eval(spec_and(a, b), env);
    lemma_not_eval(a, env);
    lemma_not_eval(b, env);
    lemma_or_eval(spec_not(a), spec_not(b), env);
}

/// The canonically ordered pair `(a, b)` has the shape that `and` folds
/// into an exclusive or: a negated conjunction beside the matching
/// disjunction.
pub open spec fn and_xor_pattern(a: Expr, b: Expr) -> bool {
    &&& a matches Expr::Not(x)
    &&& *x matches Expr::And(p, q)
    &&& b matches Expr::Or(c, d)
    &&& p == c
    &&& q == d
}

/// The canonically ordered pair `(a, b)` has the shape that `or` folds
/// into a negated exclusive or: a negated disjunction beside the matching
/// conjunction.
pub open spec fn or_nxor_pattern(a: Expr, b: Expr) -> bool {
    &&& a matches Expr::Not(x)
    &&& *x matches Expr::Or(p, q)
    &&& b matches Expr::And(c, d)
    &&& p == c
    &&& q == d
}

/// Xor recognition: `and(not(and(c, d)), or(c, d))` is structurally the
/// tree `xor(c, d)`, whenever `and(c, d)` and `or(c, d)` themselves build
/// plain nodes — that is, on distinct operands, not both negations, that
/// do not themselves form one of the folding shapes.
pub proof fn lemma_xor_recognition(c: Expr, d: Expr)
    requires
        c != d,
        !(c is Not && d is Not),
        !and_xor_pattern(spec_sort(c, d).0, spec_sort(c, d).1),
        !or_nxor_pattern(spec_sort(c, d).0, spec_sort(c, d).1),
    ensures
        spec_and(spec_not(spec_and(c, d)), spec_or(c, d)) == spec_xor(c, d),
{
    let (lo, hi) = spec_sort(c, d);
    assert(spec_and(c, d) == Expr::And(Box::new(lo), Box::new(hi)));
    assert(spec_or(c, d) == Expr::Or(Box::new(lo), Box::new(hi)));
    assert(spec_not(spec_and(c, d)) == Expr::Not(Box::new(Expr::And(Box::new(lo), Box::new(hi)))));
}

/// Synthesis correctness on one-variable tables: the tree built from a
/// table of length 2 evaluates, under any assignment, to the table row
/// selected by variable 0.
pub proof fn lemma_synth_eval_1(s: Seq<bool>, env: Seq<bool>)
    requires
        s.len() == 2,
        env.len() >= 1,
    ensures
        eval(spec_synth(s), env) == s[if env[0] { 1int } else { 0int }],
{
    reveal_with_fuel(eval, 6);
}

/// Synthesis correctness on two-variable tables: the tree built from a
/// table of length 4 evaluates, under any assignment, to the table row
/// whose bit 0 is variable 0 and whose bit 1 is variable 1.
pub proof fn lemma_synth_eval_2(s: Seq<bool>, env: Seq<bool>)
    requires
        s.len() == 4,
        env.len() >= 2,
    ensures
        eval(spec_synth(s), env) == s[(if env[0] { 1int } else { 0int }) + (if env[1] {
            2int
        } else {
            0int
        })],
{
    reveal_with_fuel(eval, 6);
}

/// The number of variables a table of length `l` spans: the base-two
/// logarithm of `l`, rounded down.
pub open spec fn lg(l: nat) -> nat
    decreases l,
{
    if l <= 1 {
        0
    } else {
        1 + lg(l / 2)
    }
}

/// The table row an assignment selects: bit `k` of the row index is the
/// value of variable `k`, for the first `n` variables.
pub open spec fn table_row(env: Seq<bool>, n: nat) -> int
    decreases n,
{
    if n == 0 {
        0
    } else {
        (if env[0] {
            1int
        } else {
            0int
        }) + 2 * table_row(env.skip(1), (n - 1) as nat)
    }
}

/// A row index over `n` variables stays within a table of length two to
/// the power of `n`.
pub proof fn lemma_table_row_bound(env: Seq<bool>, n: nat)
    ensures
        0 <= table_row(env, n) < pow2(n),
    decreases n,
{
    lemma2_to64();
    if n > 0 {
        lemma_table_row_bound(env.skip(1), (n - 1) as nat);
        lemma_pow2_adds((n - 1) as nat, 1);
    }
}

/// On a power of two, `lg` is exact.
pub proof fn lemma_pow2_lg(l: nat)
    requires
        is_pow2(l as int),
    ensures
        pow2(lg(l)) == l,
    decreases l,
{
    reveal(vstd::arithmetic::power2::is_pow2);
    lemma2_to64();
    if l > 1 {
        lemma_pow2_lg(l / 2);
        lemma_pow2_adds(1, lg(l / 2));
    }
}

/// At every level of the recursive split, the tree synthesized from the
/// even half is not topped by a negation. The conjunction with the negated
/// selector then builds a plain node instead of pressing the two negations
/// together, so each recombination is a boolean identity.
pub open spec fn negation_free_cofactors(s: Seq<bool>) -> bool
    decreases s.len(),
{
    s.len() > 4 ==> {
        &&& negation_free_cofactors(evens_of(s))
        &&& negation_free_cofactors(odds_of(s))
        &&& !(spec_synth(evens_of(s)) is Not)
    }
}

/// Synthesis correctness: on every table with negation-free cofactors the
/// synthesized tree evaluates, under any assignment that covers the
/// table's variables, to exactly the row the assignment selects.
pub proof fn lemma_synth_eval(s: Seq<bool>, env: Seq<bool>)
    requires
        is_pow2(s.len() as int),
        2 <= s.len() <= usize::MAX,
        env.len() >= lg(s.len()),
        negation_free_cofactors(s),
    ensures
        eval(spec_synth(s), env) == s[table_row(env, lg(s.len()))],
    decreases s.len(),
{
    reveal(vstd::arithmetic::power2::is_pow2);
    if s.len() == 2 {
        assert(lg(2) == 1) by {
            reveal_with_fuel(lg, 3);
        }
        assert(table_row(env, 1) == (if env[0] {
            1int
        } else {
            0int
        })) by {
            reveal_with_fuel(table_row, 3);
        }
        lemma_synth_eval_1(s, env);
    } else if s.len() <= 4 {
        assert(s.len() == 4);
        assert(lg(4) == 2) by {
            reveal_with_fuel(lg, 4);
        }
        assert(env.skip(1)[0] == env[1]);
        assert(table_row(env, 2) == (if env[0] {
            1int
        } else {
            0int
        }) + (if env[1] {
            2int
        } else {
            0int
        })) by {
            reveal_with_fuel(table_row, 4);
        }
        lemma_synth_eval_2(s, env);
    } else {
        lemma_pow2_half(s.len() as int);
        let ev = evens_of(s);
        let od = odds_of(s);
        let n2 = lg(s.len() / 2);
        assert(lg(s.len()) == 1 + n2);
        let tail = env.skip(1);
        lemma_synth_eval(ev, tail);
        lemma_synth_eval(od, tail);
        let ca = spec_synth(ev);
        let cb = spec_synth(od);
        lemma_synth_high(ev);
        lemma_synth_high(od);
        lemma_var_range(ca);
        lemma_var_range(cb);
        lemma_pow2_lg((s.len() / 2) as nat);
        // The half-table bound pins each child's indices under `n2`.
        if high_var(ca) + 1 > n2 {
            lemma_pow2_strictly_increases(n2, (high_var(ca) + 1) as nat);
        }
        if high_var(cb) + 1 > n2 {
            lemma_pow2_strictly_increases(n2, (high_var(cb) + 1) as nat);
        }
        lemma2_to64();
        lemma2_to64_rest();
        assert(usize::MAX as int <= u64::MAX as int);
        if n2 >= 64 {
            lemma_pow2_mono(64nat, n2);
        }
        lemma_shift_up_eval(ca, env);
        lemma_shift_up_eval(cb, env);
        let sa = shift_up(ca);
        let sb = shift_up(cb);
        assert(!(sa is Not));
        lemma_and_eval(spec_not(Expr::Var(0)), sa, env);
        lemma_and_eval(Expr::Var(0), sb, env);
        lemma_or_eval(spec_and(spec_not(Expr::Var(0)), sa), spec_and(Expr::Var(0), sb), env);
        lemma_not_eval(Expr::Var(0), env);
        lemma_table_row_bound(tail, n2);
        let r2 = table_row(tail, n2);
        assert(ev[r2] == s[2 * r2]);
        assert(od[r2] == s[2 * r2 + 1]);
    }
}

} // verus!
