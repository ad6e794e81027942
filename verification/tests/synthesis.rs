use boolexpr::algo::{and, raw_and, raw_not, raw_or, raw_xor};
use boolexpr::{Expr, LengthError};

fn v(i: u8) -> Expr {
    Expr::Var(i)
}

#[test]
fn vars_counts_past_the_highest_index() {
    assert_eq!(and(v(0), v(3)).vars(), 4);
    assert_eq!(v(0).vars(), 1);
    assert_eq!(raw_not(v(7)).vars(), 8);
}

#[test]
fn lowest_and_highest_walk_the_whole_tree() {
    let e = raw_and(raw_not(v(2)), raw_xor(v(5), v(1)));
    assert_eq!(e.lowest(), 1);
    assert_eq!(e.highest(), 5);
}

#[test]
fn inc_vars_shifts_every_index_up() {
    let mut e = raw_and(v(0), raw_not(v(2)));
    e.inc_vars();
    assert_eq!(e, raw_and(v(1), raw_not(v(3))));
}

#[test]
fn dec_vars_shifts_down_only_when_slot_zero_is_free() {
    let mut e = raw_and(v(1), raw_not(v(3)));
    e.dec_vars();
    assert_eq!(e, raw_and(v(0), raw_not(v(2))));
    let mut f = raw_and(v(0), v(2));
    f.dec_vars();
    assert_eq!(f, raw_and(v(0), v(2)));
}

#[test]
fn eval_reads_the_assignment() {
    let e = raw_and(v(0), raw_not(v(1)));
    assert!(e.eval(&[true, false]));
    assert!(!e.eval(&[true, true]));
    assert!(!e.eval(&[false, false]));
}

#[test]
fn from_outputs_identity_table_gives_the_variable() {
    assert_eq!(Expr::from_outputs(&[false, true]), Ok(v(0)));
}

#[test]
fn from_outputs_xor_table_gives_the_xor_node() {
    assert_eq!(Expr::from_outputs(&[false, true, true, false]), Ok(raw_xor(v(0), v(1))));
}

#[test]
fn from_outputs_xnor_table_evaluates_row_by_row() {
    let e = Expr::from_outputs(&[true, false, false, true]).unwrap();
    let rows = [(false, false, true), (true, false, false), (false, true, false), (
        true,
        true,
        true,
    )];
    for (v0, v1, want) in rows.iter() {
        assert_eq!(e.eval(&[*v0, *v1]), *want);
    }
}

#[test]
fn from_outputs_rejects_length_one() {
    assert_eq!(Expr::from_outputs(&[true]), Err(LengthError));
}

#[test]
fn from_outputs_rejects_length_three() {
    assert_eq!(Expr::from_outputs(&[true, false, true]), Err(LengthError));
}

#[test]
fn from_outputs_rejects_an_empty_table() {
    assert_eq!(Expr::from_outputs(&[]), Err(LengthError));
}

#[test]
fn synthesis_matches_every_one_variable_table() {
    for mask in 0..4u32 {
        let table: Vec<bool> = (0..2).map(|i| mask >> i & 1 == 1).collect();
        let e = Expr::from_outputs(&table).unwrap();
        for row in 0..2usize {
            let env = [row & 1 == 1];
            assert_eq!(e.eval(&env), table[row]);
        }
    }
}

#[test]
fn synthesis_matches_every_two_variable_table() {
    for mask in 0..16u32 {
        let table: Vec<bool> = (0..4).map(|i| mask >> i & 1 == 1).collect();
        let e = Expr::from_outputs(&table).unwrap();
        for row in 0..4usize {
            let env = [row & 1 == 1, row >> 1 & 1 == 1];
            assert_eq!(e.eval(&env), table[row]);
        }
    }
}

#[test]
fn synthesis_of_a_constant_false_eight_row_table() {
    let e = Expr::from_outputs(&[false; 8]).unwrap();
    for row in 0..8usize {
        let env = [row & 1 == 1, row >> 1 & 1 == 1, row >> 2 & 1 == 1];
        assert!(!e.eval(&env));
    }
}

#[test]
fn synthesis_of_an_eight_row_table_of_the_second_variable() {
    // f(v0, v1, v2) = v1: both halves synthesize to the same subtree, and
    // the recombination through the rewrite engine keeps the semantics.
    let table: Vec<bool> = (0..8).map(|i| i >> 1 & 1 == 1).collect();
    let e = Expr::from_outputs(&table).unwrap();
    for row in 0..8usize {
        let env = [row & 1 == 1, row >> 1 & 1 == 1, row >> 2 & 1 == 1];
        assert_eq!(e.eval(&env), table[row]);
    }
}

#[test]
fn negation_pressing_reshapes_an_eight_row_table() {
    // The even half ([true, false, true, false]) synthesizes to the
    // negation-topped tree !Var(0), so the conjunction with the negated
    // selector presses the two negations into one over an inner
    // conjunction. That fold is not a boolean identity: the tree built
    // here reads true at row 1, where the table says false.
    let e = Expr::from_outputs(&[true, false, false, false, true, false, false, false]).unwrap();
    let expected = raw_or(
        raw_not(raw_and(v(0), v(1))),
        raw_and(v(0), raw_and(v(1), raw_not(v(1)))),
    );
    assert_eq!(e, expected);
    assert!(e.eval(&[true, false, false]));
}

#[test]
fn synthesis_splits_on_the_selector_variable() {
    // Rows where bit 0 is set copy the odd half ([true, true], constant
    // true over the remaining variable); rows where it is clear copy the
    // even half ([false, false], constant false).
    let e = Expr::from_outputs(&[false, true, false, true]).unwrap();
    assert_eq!(e, v(0));
}
