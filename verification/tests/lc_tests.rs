use r1cs_core::field::{Field, Fp, FP_MODULUS};
use r1cs_core::index::{Index, Variable};
use r1cs_core::lc::{ConstraintVar, LinearCombination};

fn var(idx: Index) -> Variable {
    Variable::new_unchecked(idx)
}

#[test]
fn fp_arithmetic() {
    assert_eq!(Fp::new(FP_MODULUS), Fp::new(0));
    assert_eq!(Fp::new(FP_MODULUS + 5), Fp::new(5));
    assert_eq!(Fp::new(3).add(Fp::new(4)), Fp::new(7));
    assert_eq!(Fp::new(FP_MODULUS - 1).add(Fp::new(1)), Fp::new(0));
    assert_eq!(Fp::new(6).mul(Fp::new(7)), Fp::new(42));
    assert_eq!(Fp::new(5).neg().add(Fp::new(5)), Fp::new(0));
    assert_eq!(Fp::zero(), Fp::new(0));
    assert_eq!(Fp::one(), Fp::new(1));
}

#[test]
fn inserting_same_variable_twice_merges() {
    let x = var(Index::Input(0));
    let mut lc: LinearCombination<Fp> = LinearCombination::new();
    lc.insert(Fp::new(10), x);
    lc.insert(Fp::new(32), x);
    assert_eq!(lc.0.len(), 1);
    assert_eq!(lc.0[0], (x, Fp::new(42)));
}

#[test]
fn merged_zero_coefficient_is_retained_as_one_term() {
    let x = var(Index::Aux(3));
    let mut lc: LinearCombination<Fp> = LinearCombination::new();
    lc.insert(Fp::new(FP_MODULUS - 1), x);
    lc.insert(Fp::new(1), x);
    assert_eq!(lc.0.len(), 1);
    assert_eq!(lc.0[0], (x, Fp::new(0)));
}

#[test]
fn insertions_keep_variables_strictly_increasing() {
    let order = [
        Index::Aux(4),
        Index::Input(2),
        Index::Aux(0),
        Index::Input(7),
        Index::Input(2),
        Index::Aux(9),
    ];
    let mut lc: LinearCombination<Fp> = LinearCombination::new();
    for (k, idx) in order.iter().enumerate() {
        lc.insert(Fp::new(k as u64 + 1), var(*idx));
    }
    assert_eq!(lc.0.len(), 5);
    for w in lc.0.windows(2) {
        assert!(w[0].0 < w[1].0);
    }
    let vars: Vec<Index> = lc.0.iter().map(|t| t.0.get_unchecked()).collect();
    assert_eq!(
        vars,
        vec![Index::Input(2), Index::Input(7), Index::Aux(0), Index::Aux(4), Index::Aux(9)]
    );
    // the two terms for Input(2) were merged
    assert_eq!(lc.0[0].1, Fp::new(7));
}

#[test]
fn combine_interleaves_and_sums_collisions() {
    let x = var(Index::Input(0));
    let y = var(Index::Input(1));
    let z = var(Index::Aux(0));
    let mut a: LinearCombination<Fp> = LinearCombination::new();
    a.insert(Fp::new(1), x);
    a.insert(Fp::new(2), z);
    let mut b: LinearCombination<Fp> = LinearCombination::new();
    b.insert(Fp::new(5), y);
    b.insert(Fp::new(40), z);
    let c = a.combine(&b);
    assert_eq!(c.0.len(), 3);
    assert_eq!(c.0[0], (x, Fp::new(1)));
    assert_eq!(c.0[1], (y, Fp::new(5)));
    assert_eq!(c.0[2], (z, Fp::new(42)));
}

#[test]
fn combine_is_order_insensitive() {
    let mut a: LinearCombination<Fp> = LinearCombination::new();
    a.insert(Fp::new(3), var(Index::Input(0)));
    a.insert(Fp::new(11), var(Index::Aux(2)));
    let mut b: LinearCombination<Fp> = LinearCombination::new();
    b.insert(Fp::new(5), var(Index::Input(0)));
    b.insert(Fp::new(9), var(Index::Input(4)));
    let mut c: LinearCombination<Fp> = LinearCombination::new();
    c.insert(Fp::new(7), var(Index::Aux(2)));
    c.insert(Fp::new(FP_MODULUS - 3), var(Index::Input(0)));

    let ab_c = a.combine(&b).combine(&c);
    let bc_a = b.combine(&c).combine(&a);
    assert_eq!(ab_c.0, bc_a.0);
    // the three coefficients for Input(0) cancel to 5
    assert_eq!(ab_c.0[0], (var(Index::Input(0)), Fp::new(5)));
}

#[test]
fn scale_multiplies_every_coefficient() {
    let mut lc: LinearCombination<Fp> = LinearCombination::new();
    lc.insert(Fp::new(2), var(Index::Input(0)));
    lc.insert(Fp::new(3), var(Index::Aux(1)));
    lc.scale(Fp::new(10));
    assert_eq!(lc.0[0].1, Fp::new(20));
    assert_eq!(lc.0[1].1, Fp::new(30));
    assert_eq!(lc.len(), 2);
    assert_eq!(lc.term(0).0, var(Index::Input(0)));
}

#[test]
fn single_term_combination() {
    let x = var(Index::Aux(5));
    let lc: LinearCombination<Fp> = LinearCombination::single(Fp::new(9), x);
    assert_eq!(lc.0, vec![(x, Fp::new(9))]);
}

#[test]
fn constraint_var_wraps_without_allocation() {
    let x = var(Index::Input(1));
    let cv: ConstraintVar<Fp> = ConstraintVar::from_var(x);
    match cv {
        ConstraintVar::Var(v) => assert_eq!(v, x),
        ConstraintVar::LC(_) => panic!("wrapping a variable must not allocate a combination"),
    }
}

#[test]
fn constraint_var_combine_normalizes() {
    let x = var(Index::Input(1));
    let y = var(Index::Aux(0));
    let a: ConstraintVar<Fp> = ConstraintVar::from_var(x);
    let b: ConstraintVar<Fp> = ConstraintVar::from_var(y);
    match a.combine(b) {
        ConstraintVar::LC(lc) => {
            assert_eq!(lc.0, vec![(x, Fp::new(1)), (y, Fp::new(1))]);
        },
        ConstraintVar::Var(_) => panic!("combining must normalize to a combination"),
    }
}

#[test]
fn constraint_var_combine_merges_same_variable() {
    let x = var(Index::Aux(8));
    let a: ConstraintVar<Fp> = ConstraintVar::from_var(x);
    let b: ConstraintVar<Fp> = ConstraintVar::from_var(x);
    match a.combine(b) {
        ConstraintVar::LC(lc) => {
            assert_eq!(lc.0, vec![(x, Fp::new(2))]);
        },
        ConstraintVar::Var(_) => panic!("combining must normalize to a combination"),
    }
}

#[test]
fn constraint_var_scale() {
    let x = var(Index::Input(0));
    let mut lc: LinearCombination<Fp> = LinearCombination::new();
    lc.insert(Fp::new(6), x);
    let cv = ConstraintVar::from_lc(lc);
    match cv.scale(Fp::new(7)) {
        ConstraintVar::LC(scaled) => assert_eq!(scaled.0, vec![(x, Fp::new(42))]),
        ConstraintVar::Var(_) => panic!("scaling must normalize to a combination"),
    }
}
