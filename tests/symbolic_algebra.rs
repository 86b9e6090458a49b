use icicle_trace::{
    log2_ceil_usize, log_quotient_degree, max_constraint_degree, BabyBear, Entry,
    SymbolicAirBuilder, SymbolicExpression, SymbolicVariable,
};

fn c(v: u32) -> SymbolicExpression {
    SymbolicExpression::from(BabyBear::from_u32(v))
}

fn main_var(offset: usize, index: usize) -> SymbolicExpression {
    SymbolicExpression::from(SymbolicVariable::new(Entry::Main { offset }, index))
}

const P: u32 = 2013265921;

#[test]
fn constant_folding() {
    assert_eq!(c(3).add(c(4)), c(7));
    assert_eq!(c(3).sub(c(4)), c(P - 1));
    assert_eq!(c(P - 1).add(c(5)), c(4));
    assert_eq!(c(100000).mul(c(100000)), c(((100000u64 * 100000u64) % P as u64) as u32));
    assert_eq!(c(3).neg(), c(P - 3));
    assert_eq!(c(0).neg(), c(0));
}

#[test]
fn identities() {
    let e = main_var(0, 1).mul(main_var(1, 2));
    assert_eq!(e.clone().add(c(0)), e);
    assert_eq!(c(0).add(e.clone()), e);
    assert_eq!(e.clone().sub(c(0)), e);
    assert_eq!(e.clone().mul(c(1)), e);
    assert_eq!(c(1).mul(e.clone()), e);
    assert_eq!(e.clone().mul(c(0)), c(0));
    assert_eq!(c(0).mul(e.clone()), c(0));
    assert_eq!(SymbolicExpression::zero().neg(), SymbolicExpression::zero());
}

#[test]
fn zero_minus_expression_is_kept() {
    let e = main_var(0, 0);
    match c(0).sub(e.clone()) {
        SymbolicExpression::Sub { degree_multiple, .. } => assert_eq!(degree_multiple, 1),
        other => panic!("unexpected {:?}", other),
    }
    match e.neg() {
        SymbolicExpression::Neg { degree_multiple, .. } => assert_eq!(degree_multiple, 1),
        other => panic!("unexpected {:?}", other),
    }
}

#[test]
fn degrees() {
    let public = SymbolicExpression::from(SymbolicVariable::new(Entry::Public, 0));
    let challenge = SymbolicVariable::new(Entry::Challenge, 0);
    let perm = SymbolicVariable::new(Entry::Permutation { offset: 1 }, 3);
    assert_eq!(public.degree_multiple(), 0);
    assert_eq!(challenge.degree_multiple(), 0);
    assert_eq!(perm.degree_multiple(), 1);
    assert_eq!(SymbolicExpression::IsFirstRow.degree_multiple(), 1);
    assert_eq!(SymbolicExpression::IsLastRow.degree_multiple(), 1);
    assert_eq!(SymbolicExpression::IsTransition.degree_multiple(), 0);
    assert_eq!(c(9).degree_multiple(), 0);
    let x = main_var(0, 0);
    let y = main_var(1, 0);
    let xy = x.clone().mul(y.clone());
    assert_eq!(xy.degree_multiple(), 2);
    assert_eq!(xy.clone().add(x.clone()).degree_multiple(), 2);
    assert_eq!(xy.clone().sub(public.clone()).degree_multiple(), 2);
    assert_eq!(xy.clone().mul(xy.clone()).degree_multiple(), 4);
    assert_eq!(x.clone().mul(public).degree_multiple(), 1);
    assert_eq!(SymbolicExpression::IsFirstRow.mul(xy).degree_multiple(), 3);
}

#[test]
fn sum_product_and_assign() {
    let x = main_var(0, 0);
    let s = SymbolicExpression::sum(vec![c(1), c(2), c(3)]);
    assert_eq!(s, c(6));
    let p = SymbolicExpression::product(vec![c(2), c(3), c(4)]);
    assert_eq!(p, c(24));
    assert_eq!(SymbolicExpression::sum(vec![]), c(0));
    assert_eq!(SymbolicExpression::product(vec![]), c(1));
    let s = SymbolicExpression::sum(vec![x.clone(), c(0)]);
    assert_eq!(s, x);
    let p = SymbolicExpression::product(vec![x.clone(), x.clone(), x.clone()]);
    assert_eq!(p.degree_multiple(), 3);
    let mut a = c(5);
    a.add_assign(c(6));
    assert_eq!(a, c(11));
    a.sub_assign(c(1));
    assert_eq!(a, c(10));
    a.mul_assign(c(3));
    assert_eq!(a, c(30));
    assert_eq!(SymbolicExpression::default(), c(0));
    assert_eq!(SymbolicExpression::from_u32(P + 5), c(5));
    assert_eq!(SymbolicExpression::one(), c(1));
}

#[test]
fn shallow_clone_is_equal() {
    let e = main_var(0, 0).mul(main_var(1, 1)).add(c(7));
    assert_eq!(e.clone_shallow(), e);
}

#[test]
fn variable_operators() {
    let v = SymbolicVariable::new(Entry::Main { offset: 0 }, 4);
    assert_eq!(v.add(c(0)), SymbolicExpression::from(v));
    assert_eq!(v.mul(c(1)), SymbolicExpression::from(v));
    assert_eq!(v.mul(c(0)), c(0));
    assert_eq!(v.sub(c(0)), SymbolicExpression::from(v));
    assert_eq!(v.mul(main_var(0, 0)).degree_multiple(), 2);
}

#[test]
fn filter_composition() {
    let x = main_var(0, 0);
    let y = main_var(0, 1);
    let a = main_var(0, 2);
    let b = main_var(1, 2);
    let mut builder = SymbolicAirBuilder::new(0, 3, 0);
    {
        let mut f = builder.when(x.clone());
        let mut g = f.when(y.clone());
        g.assert_eq(a.clone(), b.clone());
    }
    let mut direct = SymbolicAirBuilder::new(0, 3, 0);
    direct.assert_zero(x.clone().mul(y.clone()).mul(a.clone().sub(b.clone())));
    let filtered = builder.constraints();
    assert_eq!(filtered.len(), 1);
    assert_eq!(filtered, direct.constraints());
    assert_eq!(filtered[0].degree_multiple(), 3);
}

#[test]
fn filter_nesting_assert_zero() {
    let x = main_var(0, 0);
    let y = main_var(0, 1);
    let e = main_var(1, 1);
    let mut builder = SymbolicAirBuilder::new(0, 2, 0);
    builder.when(x.clone()).when(y.clone()).assert_zero(e.clone());
    let mut direct = SymbolicAirBuilder::new(0, 2, 0);
    direct.assert_zero(x.mul(y).mul(e));
    assert_eq!(builder.constraints(), direct.constraints());
}

#[test]
fn builder_selectors_and_asserts() {
    let mut builder = SymbolicAirBuilder::new(1, 2, 2);
    assert_eq!(builder.is_first_row(), SymbolicExpression::IsFirstRow);
    assert_eq!(builder.is_last_row(), SymbolicExpression::IsLastRow);
    assert_eq!(builder.is_transition(), SymbolicExpression::IsTransition);
    assert_eq!(builder.is_transition_window(2), SymbolicExpression::IsTransition);
    assert_eq!(builder.two(), c(2));
    assert_eq!(builder.from_u32(7), c(7));
    let x = main_var(0, 0);
    builder.assert_one(x.clone());
    builder.assert_bool(x.clone());
    builder.assert_tern(x.clone());
    builder.when_ne(x.clone(), c(3)).assert_one(x.clone());
    builder.when_transition_window(2).assert_zero(x.clone());
    let cs = builder.constraints();
    assert_eq!(cs.len(), 5);
    assert_eq!(cs[0], x.clone().sub(c(1)));
    assert_eq!(cs[1], x.clone().mul(x.clone().sub(c(1))));
    assert_eq!(cs[1].degree_multiple(), 2);
    assert_eq!(cs[2].degree_multiple(), 3);
    assert_eq!(cs[3], x.clone().sub(c(3)).mul(x.clone().sub(c(1))));
    assert_eq!(cs[4], SymbolicExpression::IsTransition.mul(x));
}

#[test]
fn builder_variables() {
    let builder = SymbolicAirBuilder::new(2, 3, 2);
    let main = builder.main();
    assert_eq!(main.width(), 3);
    assert_eq!(main.height(), 2);
    assert_eq!(main.get(1, 2), SymbolicVariable::new(Entry::Main { offset: 1 }, 2));
    assert_eq!(main.row_slice(0)[1], SymbolicVariable::new(Entry::Main { offset: 0 }, 1));
    let prep = builder.preprocessed();
    assert_eq!(prep.values.len(), 4);
    assert_eq!(prep.get(1, 0), SymbolicVariable::new(Entry::Preprocessed { offset: 1 }, 0));
    let pubs = builder.public_values();
    assert_eq!(pubs.len(), 2);
    assert_eq!(pubs[1], SymbolicVariable::new(Entry::Public, 1));
    let empty = SymbolicAirBuilder::new(0, 0, 0);
    assert_eq!(empty.main().height(), 0);
    assert_eq!(empty.constraints().len(), 0);
}

#[test]
fn filtered_builder_passthrough() {
    let mut builder = SymbolicAirBuilder::new(0, 2, 0);
    let f = builder.when_first_row();
    assert_eq!(f.condition(), SymbolicExpression::IsFirstRow);
    assert_eq!(f.is_last_row(), SymbolicExpression::IsLastRow);
    assert_eq!(f.is_first_row(), SymbolicExpression::IsFirstRow);
    assert_eq!(f.is_transition_window(2), SymbolicExpression::IsTransition);
    assert_eq!(f.zero(), c(0));
    assert_eq!(f.one(), c(1));
    assert_eq!(f.two(), c(2));
    assert_eq!(f.from_u32(9), c(9));
    assert_eq!(f.main().width(), 2);
    let g = builder.when_last_row();
    assert_eq!(g.condition(), SymbolicExpression::IsLastRow);
}

#[test]
fn log_quotient_degree_values() {
    assert_eq!(log_quotient_degree(3), 1);
    assert_eq!(log_quotient_degree(5), 2);
    assert_eq!(log_quotient_degree(1), 0);
    assert_eq!(log_quotient_degree(2), 0);
    assert_eq!(log_quotient_degree(0), 0);
}

#[test]
fn log2_ceil_values() {
    assert_eq!(log2_ceil_usize(0), 0);
    assert_eq!(log2_ceil_usize(1), 0);
    assert_eq!(log2_ceil_usize(2), 1);
    assert_eq!(log2_ceil_usize(3), 2);
    assert_eq!(log2_ceil_usize(4), 2);
    assert_eq!(log2_ceil_usize(5), 3);
    assert_eq!(log2_ceil_usize(1 << 20), 20);
    assert_eq!(log2_ceil_usize((1 << 20) + 1), 21);
    assert_eq!(log2_ceil_usize(usize::MAX), 64);
}

#[test]
fn max_degree_of_constraints() {
    let x = main_var(0, 0);
    let cs = vec![x.clone(), x.clone().mul(x.clone()).mul(x.clone()), c(4)];
    assert_eq!(max_constraint_degree(&cs), 3);
    assert_eq!(max_constraint_degree(&[]), 0);
}

#[test]
fn field_arithmetic() {
    let a = BabyBear::from_u32(P - 1);
    let b = BabyBear::from_u32(2);
    assert_eq!(a.add(b), BabyBear::from_u32(1));
    assert_eq!(b.sub(a), BabyBear::from_u32(3));
    assert_eq!(a.mul(a), BabyBear::from_u32(1));
    assert_eq!(b.neg(), BabyBear::from_u32(P - 2));
    assert_eq!(BabyBear::from_u32(P), BabyBear::zero());
    assert_eq!(BabyBear::from_u64(P as u64 * 3 + 4), BabyBear::from_u32(4));
    assert_eq!(icicle_trace::from_bool(true), BabyBear::one());
    assert_eq!(icicle_trace::from_bool(false), BabyBear::zero());
    assert!(BabyBear::zero().is_zero());
    assert!(BabyBear::one().is_one());
}

#[test]
fn display_string() {
    let x = main_var(0, 3);
    let e = c(12).sub(x.clone()).mul(SymbolicExpression::IsFirstRow).add(x.neg());
    assert_eq!(
        e.to_display_string(),
        "(((12 - SymbolicVariable { entry: Main { offset: 0 }, index: 3 }) * IsFirstRow) + (-SymbolicVariable { entry: Main { offset: 0 }, index: 3 }))"
    );
    assert_eq!(c(0).to_display_string(), "0");
    assert_eq!(c(1234567).to_display_string(), "1234567");
    let p = SymbolicExpression::from(SymbolicVariable::new(Entry::Public, 10));
    assert_eq!(
        p.to_display_string(),
        "SymbolicVariable { entry: Public, index: 10 }"
    );
    assert_eq!(SymbolicExpression::IsTransition.to_display_string(), "IsTransition");
    assert_eq!(SymbolicExpression::IsLastRow.to_display_string(), "IsLastRow");
}
