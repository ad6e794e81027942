//! The truth-table synthesizer: recursive Shannon expansion of an output
//! vector into an expression tree, built through the rewrite engine.

use vstd::prelude::*;

use vstd::arithmetic::power2::{is_pow2, lemma2_to64, lemma2_to64_rest, lemma_pow2_adds,
    lemma_pow2_strictly_increases, pow2};

use crate::algo::{and, not, or, raw_and, raw_not, raw_or, raw_xor, spec_and, spec_not, spec_or};
use crate::expr::{high_var, lemma_var_range, shift_up, Expr};
use crate::laws::{lemma_and_high, lemma_not_high, lemma_or_high};

verus! {

/// The single failure mode of synthesis: an output vector whose length is
/// not a power of two, or is below 2.
#[derive(Clone, Copy, Debug, PartialEq, Eq, Structural)]
pub struct LengthError;

/// The entries of `s` at even positions: the rows where the selector
/// variable (bit 0 of the row index) is 0.
pub open spec fn evens_of(s: Seq<bool>) -> Seq<bool> {
    Seq::new(s.len() / 2, |k: int| s[2 * k])
}

/// The entries of `s` at odd positions: the rows where the selector
/// variable (bit 0 of the row index) is 1.
pub open spec fn odds_of(s: Seq<bool>) -> Seq<bool> {
    Seq::new(s.len() / 2, |k: int| s[2 * k + 1])
}

/// The tree synthesized from the output vector `s`, where `s[i]` is the
/// value of the function when the variables hold the bits of `i` (bit 0 is
/// variable 0). Tables of one and two variables map directly to fixed
/// minimal closed forms; longer tables split on variable 0 and recombine
/// the two sub-functions through the rewrite engine.
pub open spec fn spec_synth(s: Seq<bool>) -> Expr
    recommends
        is_pow2(s.len() as int),
        s.len() >= 2,
    decreases s.len(),
{
    if s.len() <= 2 {
        match (s[0], s[1]) {
            (false, false) => Expr::And(bx(Expr::Var(0)), bx(Expr::Not(bx(Expr::Var(0))))),
            (true, false) => Expr::Not(bx(Expr::Var(0))),
            (false, true) => Expr::Var(0),
            (true, true) => Expr::Or(bx(Expr::Var(0)), bx(Expr::Not(bx(Expr::Var(0))))),
        }
    } else if s.len() <= 4 {
        match (s[0], s[1], s[2], s[3]) {
            (false, false, false, false) => Expr::And(
                bx(Expr::Var(0)),
                bx(Expr::Not(bx(Expr::Var(0)))),
            ),
            (true, false, false, false) => Expr::Not(bx(Expr::Or(bx(Expr::Var(0)), bx(Expr::Var(1))))),
            (false, true, false, false) => Expr::And(bx(Expr::Var(0)), bx(Expr::Not(bx(Expr::Var(1))))),
            (true, true, false, false) => Expr::Not(bx(Expr::Var(1))),
            (false, false, true, false) => Expr::And(bx(Expr::Var(1)), bx(Expr::Not(bx(Expr::Var(0))))),
            (true, false, true, false) => Expr::Not(bx(Expr::Var(0))),
            (false, true, true, false) => Expr::Xor(bx(Expr::Var(0)), bx(Expr::Var(1))),
            (true, true, true, false) => Expr::Not(bx(Expr::And(bx(Expr::Var(0)), bx(Expr::Var(1))))),
            (false, false, false, true) => Expr::And(bx(Expr::Var(0)), bx(Expr::Var(1))),
            (true, false, false, true) => Expr::Not(bx(Expr::Xor(bx(Expr::Var(0)), bx(Expr::Var(1))))),
            (false, true, false, true) => Expr::Var(0),
            (true, true, false, true) => Expr::Or(bx(Expr::Var(0)), bx(Expr::Not(bx(Expr::Var(1))))),
            (false, false, true, true) => Expr::Var(1),
            (true, false, true, true) => Expr::Or(bx(Expr::Var(1)), bx(Expr::Not(bx(Expr::Var(0))))),
            (false, true, true, true) => Expr::Or(bx(Expr::Var(0)), bx(Expr::Var(1))),
            (true, true, true, true) => Expr::Or(bx(Expr::Var(0)), bx(Expr::Not(bx(Expr::Var(0))))),
        }
    } else {
        spec_or(
            spec_and(spec_not(Expr::Var(0)), shift_up(spec_synth(evens_of(s)))),
            spec_and(Expr::Var(0), shift_up(spec_synth(odds_of(s)))),
        )
    }
}

/// Ghost shorthand for boxing a subtree.
pub open spec fn bx(e: Expr) -> Box<Expr> {
    Box::new(e)
}

/// A valid table longer than the base cases has valid sub-tables of half
/// its length.
pub proof fn lemma_pow2_half(l: int)
    requires
        is_pow2(l),
        l >= 3,
        l != 4,
    ensures
        l % 2 == 0,
        is_pow2(l / 2),
        l / 2 >= 2,
        l >= 8,
{
    reveal(vstd::arithmetic::power2::is_pow2);
    assert(!is_pow2(3));
}

/// Every tree the synthesizer yields from a table of length `l` keeps its
/// variable indices below the table's bit width: two to the power of
/// (highest index + 1) stays within `l`.
pub proof fn lemma_synth_high(s: Seq<bool>)
    requires
        is_pow2(s.len() as int),
        s.len() >= 2,
    ensures
        pow2((high_var(spec_synth(s)) + 1) as nat) <= s.len(),
    decreases s.len(),
{
    lemma_var_range(spec_synth(s));
    lemma2_to64();
    if s.len() <= 4 {
        reveal(vstd::arithmetic::power2::is_pow2);
        assert(s.len() == 2 || s.len() == 4);
        if s.len() == 2 {
            assert(high_var(spec_synth(s)) == 0) by {
                reveal_with_fuel(high_var, 5);
            }
        } else {
            assert(high_var(spec_synth(s)) <= 1) by {
                reveal_with_fuel(high_var, 5);
            }
        }
    } else {
        lemma_pow2_half(s.len() as int);
        let ev = evens_of(s);
        let od = odds_of(s);
        lemma_synth_high(ev);
        lemma_synth_high(od);
        let ca = spec_synth(ev);
        let cb = spec_synth(od);
        lemma_var_range(ca);
        lemma_var_range(cb);
        let r = spec_synth(s);
        if high_var(ca) == 255 || high_var(cb) == 255 {
            // A child already fills the whole index range, so its own bound
            // swallows anything the combination can reach.
            lemma_pow2_mono((high_var(r) + 1) as nat, 256nat);
            if high_var(ca) == 255 {
                assert(pow2(256) <= s.len() / 2);
            } else {
                assert(pow2(256) <= s.len() / 2);
            }
        } else {
            crate::expr::lemma_shift_up_range(ca);
            crate::expr::lemma_shift_up_range(cb);
            let sa = shift_up(ca);
            let sb = shift_up(cb);
            lemma_not_high(Expr::Var(0));
            lemma_and_high(spec_not(Expr::Var(0)), sa);
            lemma_and_high(Expr::Var(0), sb);
            lemma_or_high(spec_and(spec_not(Expr::Var(0)), sa), spec_and(Expr::Var(0), sb));
            assert(high_var(r) <= vstd::math::max(high_var(ca) + 1, high_var(cb) + 1));
            let m = vstd::math::max(high_var(ca), high_var(cb));
            lemma_pow2_mono((high_var(r) + 1) as nat, (m + 2) as nat);
            lemma_pow2_adds((m + 1) as nat, 1);
            assert(pow2((m + 1) as nat) <= s.len() / 2);
        }
    }
}

/// `pow2` never shrinks as the exponent grows.
pub proof fn lemma_pow2_mono(e1: nat, e2: nat)
    requires
        e1 <= e2,
    ensures
        pow2(e1) <= pow2(e2),
{
    if e1 < e2 {
        lemma_pow2_strictly_increases(e1, e2);
    }
}

/// Whether `n` is a power of two, decided by repeated halving.
fn is_power_of_two(n: usize) -> (b: bool)
    ensures
        b == is_pow2(n as int),
{
    if n == 0 {
        proof {
            reveal(vstd::arithmetic::power2::is_pow2);
        }
        return false;
    }
    let mut m: usize = n;
    while m % 2 == 0
        invariant
            m >= 1,
            is_pow2(n as int) == is_pow2(m as int),
        decreases m,
    {
        proof {
            reveal(vstd::arithmetic::power2::is_pow2);
        }
        m = m / 2;
    }
    proof {
        reveal(vstd::arithmetic::power2::is_pow2);
    }
    m == 1
}

fn synth(outputs: &[bool]) -> (r: Expr)
    requires
        is_pow2(outputs@.len() as int),
        outputs@.len() >= 2,
    ensures
        r == spec_synth(outputs@),
    decreases outputs@.len(),
{
    let n = outputs.len();
    if n == 2 {
        match (outputs[0], outputs[1]) {
            (false, false) => raw_and(Expr::Var(0), raw_not(Expr::Var(0))),
            (true, false) => raw_not(Expr::Var(0)),
            (false, true) => Expr::Var(0),
            (true, true) => raw_or(Expr::Var(0), raw_not(Expr::Var(0))),
        }
    } else if n == 4 {
        match (outputs[0], outputs[1], outputs[2], outputs[3]) {
            (false, false, false, false) => raw_and(Expr::Var(0), raw_not(Expr::Var(0))),
            (true, false, false, false) => raw_not(raw_or(Expr::Var(0), Expr::Var(1))),
            (false, true, false, false) => raw_and(Expr::Var(0), raw_not(Expr::Var(1))),
            (true, true, false, false) => raw_not(Expr::Var(1)),
            (false, false, true, false) => raw_and(Expr::Var(1), raw_not(Expr::Var(0))),
            (true, false, true, false) => raw_not(Expr::Var(0)),
            (false, true, true, false) => raw_xor(Expr::Var(0), Expr::Var(1)),
            (true, true, true, false) => raw_not(raw_and(Expr::Var(0), Expr::Var(1))),
            (false, false, false, true) => raw_and(Expr::Var(0), Expr::Var(1)),
            (true, false, false, true) => raw_not(raw_xor(Expr::Var(0), Expr::Var(1))),
            (false, true, false, true) => Expr::Var(0),
            (true, true, false, true) => raw_or(Expr::Var(0), raw_not(Expr::Var(1))),
            (false, false, true, true) => Expr::Var(1),
            (true, false, true, true) => raw_or(Expr::Var(1), raw_not(Expr::Var(0))),
            (false, true, true, true) => raw_or(Expr::Var(0), Expr::Var(1)),
            (true, true, true, true) => raw_or(Expr::Var(0), raw_not(Expr::Var(0))),
        }
    } else {
        proof {
            lemma_pow2_half(n as int);
        }
        let half = n / 2;
        let mut evens: Vec<bool> = Vec::new();
        let mut odds: Vec<bool> = Vec::new();
        let mut i: usize = 0;
        while i < half
            invariant
                i <= half,
                2 * half == outputs@.len(),
                outputs@.len() <= usize::MAX,
                evens@.len() == i as int,
                odds@.len() == i as int,
                forall|j: int| 0 <= j < i ==> evens@[j] == outputs@[2 * j],
                forall|j: int| 0 <= j < i ==> odds@[j] == outputs@[2 * j + 1],
            decreases half - i,
        {
            evens.push(outputs[2 * i]);
            odds.push(outputs[2 * i + 1]);
            i = i + 1;
        }
        proof {
            assert(evens@ =~= evens_of(outputs@));
            assert(odds@ =~= odds_of(outputs@));
        }
        let mut a = synth(evens.as_slice());
        let mut b = synth(odds.as_slice());
        proof {
            lemma_synth_high(evens_of(outputs@));
            lemma_synth_high(odds_of(outputs@));
            lemma2_to64();
            lemma2_to64_rest();
            assert(usize::MAX as int <= u64::MAX as int);
            if high_var(a) + 1 >= 64 {
                lemma_pow2_mono(64nat, (high_var(a) + 1) as nat);
            }
            if high_var(b) + 1 >= 64 {
                lemma_pow2_mono(64nat, (high_var(b) + 1) as nat);
            }
        }
        a.inc_vars();
        b.inc_vars();
        let left = and(not(Expr::Var(0)), a);
        let right = and(Expr::Var(0), b);
        or(left, right)
    }
}

impl Expr {
    /// Synthesizes the boolean function whose truth table is `outputs`:
    /// row `i` of the table is the value of the function when each variable
    /// `k` holds bit `k` of `i`. A table whose length is not a power of two
    /// of at least 2 is rejected.
    pub fn from_outputs(outputs: &[bool]) -> (r: Result<Expr, LengthError>)
        ensures
            r is Ok <==> (is_pow2(outputs@.len() as int) && outputs@.len() >= 2),
            r matches Ok(e) ==> e == spec_synth(outputs@),
    {
        if outputs.len() >= 2 && is_power_of_two(outputs.len()) {
            Ok(synth(outputs))
        } else {
            Err(LengthError)
        }
    }
}

} // verus!
