//! The expression tree: a recursive tagged union over indexed boolean
//! variables, with structural equality, variable-index introspection,
//! the index shifter, and evaluation under an assignment.

use vstd::prelude::*;

verus! {

/// A boolean expression over variables `Var(0)`, `Var(1)`, ... (indices are
/// 8-bit). Compound nodes exclusively own their children; the structure is a
/// tree with no sharing and no cycles.
#[derive(Debug)]
pub enum Expr {
    Var(u8),
    Not(Box<Expr>),
    Xor(Box<Expr>, Box<Expr>),
    And(Box<Expr>, Box<Expr>),
    Or(Box<Expr>, Box<Expr>),
}

/// Number of nodes in the tree; a termination measure for functions that
/// recurse over pairs of trees.
pub open spec fn size(e: Expr) -> nat
    decreases e,
{
    match e {
        Expr::Var(_) => 1,
        Expr::Not(x) => 1 + size(*x),
        Expr::Xor(a, b) => 1 + size(*a) + size(*b),
        Expr::And(a, b) => 1 + size(*a) + size(*b),
        Expr::Or(a, b) => 1 + size(*a) + size(*b),
    }
}

/// The smallest variable index referenced anywhere in the tree.
pub open spec fn low_var(e: Expr) -> int
    decreases e,
{
    match e {
        Expr::Var(id) => id as int,
        Expr::Not(x) => low_var(*x),
        Expr::Xor(a, b) => vstd::math::min(low_var(*a), low_var(*b)),
        Expr::And(a, b) => vstd::math::min(low_var(*a), low_var(*b)),
        Expr::Or(a, b) => vstd::math::min(low_var(*a), low_var(*b)),
    }
}

/// The largest variable index referenced anywhere in the tree.
pub open spec fn high_var(e: Expr) -> int
    decreases e,
{
    match e {
        Expr::Var(id) => id as int,
        Expr::Not(x) => high_var(*x),
        Expr::Xor(a, b) => vstd::math::max(high_var(*a), high_var(*b)),
        Expr::And(a, b) => vstd::math::max(high_var(*a), high_var(*b)),
        Expr::Or(a, b) => vstd::math::max(high_var(*a), high_var(*b)),
    }
}

/// The value of the expression when variable `k` holds `env[k]`.
/// (An index beyond `env` reads an unconstrained but fixed value, so
/// equalities of evaluations are meaningful for any environment.)
pub open spec fn eval(e: Expr, env: Seq<bool>) -> bool
    decreases e,
{
    match e {
        Expr::Var(id) => env[id as int],
        Expr::Not(x) => !eval(*x, env),
        Expr::Xor(a, b) => eval(*a, env) != eval(*b, env),
        Expr::And(a, b) => eval(*a, env) && eval(*b, env),
        Expr::Or(a, b) => eval(*a, env) || eval(*b, env),
    }
}

/// The tree with every variable index raised by one. (Total as a
/// mathematical function; the executable shifter keeps index 255 unused,
/// so the 8-bit wrap here is never reached through it.)
pub open spec fn shift_up(e: Expr) -> Expr
    decreases e,
{
    match e {
        Expr::Var(id) => Expr::Var((id + 1) as u8),
        Expr::Not(x) => Expr::Not(Box::new(shift_up(*x))),
        Expr::Xor(a, b) => Expr::Xor(Box::new(shift_up(*a)), Box::new(shift_up(*b))),
        Expr::And(a, b) => Expr::And(Box::new(shift_up(*a)), Box::new(shift_up(*b))),
        Expr::Or(a, b) => Expr::Or(Box::new(shift_up(*a)), Box::new(shift_up(*b))),
    }
}

/// The tree with every variable index lowered by one; meaningful only when
/// every index is positive.
pub open spec fn shift_down(e: Expr) -> Expr
    decreases e,
{
    match e {
        Expr::Var(id) => Expr::Var((id - 1) as u8),
        Expr::Not(x) => Expr::Not(Box::new(shift_down(*x))),
        Expr::Xor(a, b) => Expr::Xor(Box::new(shift_down(*a)), Box::new(shift_down(*b))),
        Expr::And(a, b) => Expr::And(Box::new(shift_down(*a)), Box::new(shift_down(*b))),
        Expr::Or(a, b) => Expr::Or(Box::new(shift_down(*a)), Box::new(shift_down(*b))),
    }
}

/// What `dec_vars` leaves behind: the shifted tree when no index is 0,
/// the tree unchanged otherwise.
pub open spec fn spec_dec_vars(e: Expr) -> Expr {
    if low_var(e) > 0 {
        shift_down(e)
    } else {
        e
    }
}

/// Shifting up raises both index bounds by exactly one.
pub proof fn lemma_shift_up_range(e: Expr)
    requires
        high_var(e) < 255,
    ensures
        low_var(shift_up(e)) == low_var(e) + 1,
        high_var(shift_up(e)) == high_var(e) + 1,
    decreases e,
{
    match e {
        Expr::Var(_) => {}
        Expr::Not(x) => lemma_shift_up_range(*x),
        Expr::Xor(a, b) => {
            lemma_shift_up_range(*a);
            lemma_shift_up_range(*b);
        }
        Expr::And(a, b) => {
            lemma_shift_up_range(*a);
            lemma_shift_up_range(*b);
        }
        Expr::Or(a, b) => {
            lemma_shift_up_range(*a);
            lemma_shift_up_range(*b);
        }
    }
}

/// Shifting every index up by one slot re-reads the tree under the
/// environment with one fresh slot in front: the shifted tree ignores
/// slot 0 and finds each old variable one place later.
pub proof fn lemma_shift_up_eval(e: Expr, env: Seq<bool>)
    requires
        high_var(e) < 255,
        high_var(e) + 1 < env.len(),
    ensures
        eval(shift_up(e), env) == eval(e, env.skip(1)),
    decreases e,
{
    match e {
        Expr::Var(id) => {
            assert(env.skip(1)[id as int] == env[id as int + 1]);
        }
        Expr::Not(x) => lemma_shift_up_eval(*x, env),
        Expr::Xor(a, b) => {
            lemma_shift_up_eval(*a, env);
            lemma_shift_up_eval(*b, env);
        }
        Expr::And(a, b) => {
            lemma_shift_up_eval(*a, env);
            lemma_shift_up_eval(*b, env);
        }
        Expr::Or(a, b) => {
            lemma_shift_up_eval(*a, env);
            lemma_shift_up_eval(*b, env);
        }
    }
}

/// Every variable index is an 8-bit value.
pub proof fn lemma_var_range(e: Expr)
    ensures
        0 <= low_var(e) <= 255,
        0 <= high_var(e) <= 255,
        low_var(e) <= high_var(e),
    decreases e,
{
    match e {
        Expr::Var(_) => {}
        Expr::Not(x) => lemma_var_range(*x),
        Expr::Xor(a, b) => {
            lemma_var_range(*a);
            lemma_var_range(*b);
        }
        Expr::And(a, b) => {
            lemma_var_range(*a);
            lemma_var_range(*b);
        }
        Expr::Or(a, b) => {
            lemma_var_range(*a);
            lemma_var_range(*b);
        }
    }
}

fn structural_eq(a: &Expr, b: &Expr) -> (r: bool)
    ensures
        r == (*a == *b),
    decreases size(*a),
{
    match (a, b) {
        (Expr::Var(i), Expr::Var(j)) => i == j,
        (Expr::Not(x), Expr::Not(y)) => structural_eq(&**x, &**y),
        (Expr::Xor(x0, x1), Expr::Xor(y0, y1)) => {
            structural_eq(&**x0, &**y0) && structural_eq(&**x1, &**y1)
        }
        (Expr::And(x0, x1), Expr::And(y0, y1)) => {
            structural_eq(&**x0, &**y0) && structural_eq(&**x1, &**y1)
        }
        (Expr::Or(x0, x1), Expr::Or(y0, y1)) => {
            structural_eq(&**x0, &**y0) && structural_eq(&**x1, &**y1)
        }
        _ => false,
    }
}

impl Clone for Expr {
    /// A clone is a structurally equal deep copy.
    fn clone(&self) -> (res: Self)
        ensures
            res == *self,
        decreases size(*self),
    {
        match self {
            Expr::Var(id) => Expr::Var(*id),
            Expr::Not(x) => Expr::Not(Box::new((&**x).clone())),
            Expr::Xor(a, b) => Expr::Xor(Box::new((&**a).clone()), Box::new((&**b).clone())),
            Expr::And(a, b) => Expr::And(Box::new((&**a).clone()), Box::new((&**b).clone())),
            Expr::Or(a, b) => Expr::Or(Box::new((&**a).clone()), Box::new((&**b).clone())),
        }
    }
}

impl PartialEq for Expr {
    /// Equality is purely structural: same variant, equal children.
    fn eq(&self, other: &Self) -> bool {
        structural_eq(self, other)
    }
}

impl Eq for Expr {}

impl vstd::std_specs::cmp::PartialEqSpecImpl for Expr {
    open spec fn obeys_eq_spec() -> bool {
        true
    }

    open spec fn eq_spec(&self, other: &Self) -> bool {
        *self == *other
    }
}

impl PartialOrd for Expr {
    /// Nodes compare by canonical rank alone (see [`crate::algo::spec_prec`]):
    /// a total, stable preorder, so two structurally different nodes of the
    /// same rank compare as equal.
    fn partial_cmp(&self, other: &Self) -> Option<core::cmp::Ordering> {
        let a = crate::algo::prec(self);
        let b = crate::algo::prec(other);
        if a == b {
            Some(core::cmp::Ordering::Equal)
        } else if a > b {
            Some(core::cmp::Ordering::Greater)
        } else {
            Some(core::cmp::Ordering::Less)
        }
    }
}

impl vstd::std_specs::cmp::PartialOrdSpecImpl for Expr {
    open spec fn obeys_partial_cmp_spec() -> bool {
        true
    }

    open spec fn partial_cmp_spec(&self, other: &Self) -> Option<core::cmp::Ordering> {
        if crate::algo::spec_prec(*self) == crate::algo::spec_prec(*other) {
            Some(core::cmp::Ordering::Equal)
        } else if crate::algo::spec_prec(*self) > crate::algo::spec_prec(*other) {
            Some(core::cmp::Ordering::Greater)
        } else {
            Some(core::cmp::Ordering::Less)
        }
    }
}

impl Expr {
    /// The smallest variable index in the tree.
    pub fn lowest(&self) -> (r: u8)
        ensures
            r as int == low_var(*self),
        decreases size(*self),
    {
        match self {
            Expr::Var(id) => *id,
            Expr::Not(x) => x.lowest(),
            Expr::Xor(a, b) => {
                let la = a.lowest();
                let lb = b.lowest();
                if la <= lb { la } else { lb }
            }
            Expr::And(a, b) => {
                let la = a.lowest();
                let lb = b.lowest();
                if la <= lb { la } else { lb }
            }
            Expr::Or(a, b) => {
                let la = a.lowest();
                let lb = b.lowest();
                if la <= lb { la } else { lb }
            }
        }
    }

    /// The largest variable index in the tree.
    pub fn highest(&self) -> (r: u8)
        ensures
            r as int == high_var(*self),
        decreases size(*self),
    {
        match self {
            Expr::Var(id) => *id,
            Expr::Not(x) => x.highest(),
            Expr::Xor(a, b) => {
                let ha = a.highest();
                let hb = b.highest();
                if ha >= hb { ha } else { hb }
            }
            Expr::And(a, b) => {
                let ha = a.highest();
                let hb = b.highest();
                if ha >= hb { ha } else { hb }
            }
            Expr::Or(a, b) => {
                let ha = a.highest();
                let hb = b.highest();
                if ha >= hb { ha } else { hb }
            }
        }
    }

    /// The number of variable slots the expression spans: the highest
    /// referenced index plus one. A variable the function ignores is not
    /// reflected here.
    pub fn vars(&self) -> (r: usize)
        ensures
            r as int == high_var(*self) + 1,
    {
        self.highest() as usize + 1
    }

    /// Raises every variable index by one, freeing slot 0 before the tree
    /// is merged under a new selector variable. Index overflow is rejected:
    /// the caller must leave index 255 unused, it is never silently wrapped.
    pub fn inc_vars(&mut self)
        requires
            high_var(*old(self)) < 255,
        ensures
            *final(self) == shift_up(*old(self)),
        decreases size(*old(self)),
    {
        match self {
            Expr::Var(id) => {
                *id = *id + 1;
            }
            Expr::Not(x) => x.inc_vars(),
            Expr::Xor(a, b) => {
                a.inc_vars();
                b.inc_vars();
            }
            Expr::And(a, b) => {
                a.inc_vars();
                b.inc_vars();
            }
            Expr::Or(a, b) => {
                a.inc_vars();
                b.inc_vars();
            }
        }
    }

    fn shift_down_all(&mut self)
        requires
            low_var(*old(self)) > 0,
        ensures
            *final(self) == shift_down(*old(self)),
        decreases size(*old(self)),
    {
        match self {
            Expr::Var(id) => {
                *id = *id - 1;
            }
            Expr::Not(x) => x.shift_down_all(),
            Expr::Xor(a, b) => {
                a.shift_down_all();
                b.shift_down_all();
            }
            Expr::And(a, b) => {
                a.shift_down_all();
                b.shift_down_all();
            }
            Expr::Or(a, b) => {
                a.shift_down_all();
                b.shift_down_all();
            }
        }
    }

    /// Lowers every variable index by one, but only when the smallest index
    /// is positive; otherwise the tree is left unchanged (no unsigned
    /// underflow).
    pub fn dec_vars(&mut self)
        ensures
            *final(self) == spec_dec_vars(*old(self)),
    {
        if self.lowest() > 0 {
            self.shift_down_all();
        }
    }

    /// The value of the expression under the assignment `env` (variable `k`
    /// holds `env[k]`). Every referenced variable must have a slot.
    pub fn eval(&self, env: &[bool]) -> (r: bool)
        requires
            high_var(*self) < env@.len(),
        ensures
            r == eval(*self, env@),
        decreases size(*self),
    {
        match self {
            Expr::Var(id) => env[*id as usize],
            Expr::Not(x) => !x.eval(env),
            Expr::Xor(a, b) => {
                let va = a.eval(env);
                let vb = b.eval(env);
                va != vb
            }
            Expr::And(a, b) => {
                let va = a.eval(env);
                let vb = b.eval(env);
                va && vb
            }
            Expr::Or(a, b) => {
                let va = a.eval(env);
                let vb = b.eval(env);
                va || vb
            }
        }
    }
}

} // verus!
