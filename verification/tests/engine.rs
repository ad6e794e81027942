use boolexpr::algo::{and, not, or, prec, raw_and, raw_not, raw_or, raw_xor, sort, sort_mut, xor};
use boolexpr::Expr;

fn v(i: u8) -> Expr {
    Expr::Var(i)
}

#[test]
fn prec_ranks_variables_by_index_below_operators() {
    assert_eq!(prec(&v(0)), 0);
    assert_eq!(prec(&v(7)), 7);
    assert_eq!(prec(&v(255)), 255);
    assert_eq!(prec(&raw_not(v(0))), 256);
    assert_eq!(prec(&raw_xor(v(0), v(1))), 257);
    assert_eq!(prec(&raw_and(v(0), v(1))), 258);
    assert_eq!(prec(&raw_or(v(0), v(1))), 259);
}

#[test]
fn sort_swaps_out_of_order_operands() {
    let (lo, hi) = sort(raw_not(v(0)), v(3));
    assert_eq!(lo, v(3));
    assert_eq!(hi, raw_not(v(0)));
}

#[test]
fn sort_keeps_ties_in_given_order() {
    let a = raw_and(v(0), v(1));
    let b = raw_and(v(2), v(3));
    let (lo, hi) = sort(a.clone(), b.clone());
    assert_eq!(lo, a);
    assert_eq!(hi, b);
}

#[test]
fn sort_mut_orders_in_place() {
    let mut a = raw_or(v(0), v(1));
    let mut b = v(2);
    sort_mut(&mut a, &mut b);
    assert_eq!(a, v(2));
    assert_eq!(b, raw_or(v(0), v(1)));
}

#[test]
fn raw_constructors_fold_nothing() {
    assert_eq!(raw_not(raw_not(v(0))), Expr::Not(Box::new(Expr::Not(Box::new(v(0))))));
    assert_eq!(raw_and(v(1), v(0)), Expr::And(Box::new(v(1)), Box::new(v(0))));
}

#[test]
fn and_is_idempotent() {
    let x = and(v(0), v(1));
    assert_eq!(and(x.clone(), x.clone()), x);
    let y = v(4);
    assert_eq!(and(y.clone(), y.clone()), y);
}

#[test]
fn or_is_idempotent() {
    let x = or(v(2), raw_not(v(0)));
    assert_eq!(or(x.clone(), x.clone()), x);
}

#[test]
fn double_negation_unwraps() {
    let x = xor(v(0), v(1));
    assert_eq!(not(not(x.clone())), x);
    assert_eq!(not(not(v(5))), v(5));
}

#[test]
fn and_is_commutative_across_ranks() {
    let a = v(0);
    let b = v(3);
    assert_eq!(and(a.clone(), b.clone()), and(b.clone(), a.clone()));
    assert_eq!(and(a.clone(), b.clone()), raw_and(v(0), v(3)));
    let c = not(v(1));
    let d = or(v(0), v(2));
    assert_eq!(and(c.clone(), d.clone()), and(d, c));
}

#[test]
fn or_is_commutative_across_ranks() {
    let a = v(1);
    let b = raw_and(v(0), v(2));
    assert_eq!(or(a.clone(), b.clone()), or(b, a));
}

#[test]
fn and_presses_negations_inward() {
    let built = and(not(v(0)), not(v(1)));
    assert_eq!(built, raw_not(raw_and(v(0), v(1))));
}

#[test]
fn and_recognizes_xor() {
    let c = v(0);
    let d = v(1);
    let built = and(not(and(c.clone(), d.clone())), or(c.clone(), d.clone()));
    assert_eq!(built, xor(c.clone(), d.clone()));
    assert_eq!(built, raw_xor(v(0), v(1)));
}

#[test]
fn or_recognizes_negated_xor() {
    let c = v(0);
    let d = v(1);
    let built = or(not(or(c.clone(), d.clone())), and(c.clone(), d.clone()));
    assert_eq!(built, raw_not(raw_xor(v(0), v(1))));
}

#[test]
fn de_morgan_sides_evaluate_identically() {
    let rows = [[false, false], [true, false], [false, true], [true, true]];
    for env in rows.iter() {
        let lhs = not(and(v(0), v(1)));
        let rhs = or(not(v(0)), not(v(1)));
        assert_eq!(lhs.eval(env), rhs.eval(env));
    }
}

#[test]
fn ordering_compares_by_rank() {
    assert!(v(0) < raw_not(v(1)));
    assert!(v(2) > v(1));
    let a = raw_and(v(0), v(1));
    let b = raw_and(v(2), v(3));
    assert!(!(a < b) && !(b < a));
}
