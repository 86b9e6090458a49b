use icicle_trace::utils::{
    add2, add3, indices_arr, u32_to_bits_le, u64_to_16_bit_limbs, u64_to_bits_le, xor_32_shift,
};
use icicle_trace::{
    BabyBear, DebugConstraintBuilder, Entry, PairCol, RowFailure, SymbolicAirBuilder, SymbolicExpression,
    SymbolicVariable, VirtualPairCol,
};

const P: u32 = 2013265921;

fn c(v: u32) -> SymbolicExpression {
    SymbolicExpression::from(BabyBear::from_u32(v))
}

fn var(index: usize) -> SymbolicVariable {
    SymbolicVariable::new(Entry::Main { offset: 0 }, index)
}

fn row_evaluator(values: &[u32]) -> DebugConstraintBuilder {
    let local: Vec<BabyBear> = values.iter().map(|v| BabyBear::from_u32(*v)).collect();
    DebugConstraintBuilder {
        row_index: 0,
        next: local.clone(),
        local,
        public_values: vec![],
        is_first_row: BabyBear::one(),
        is_last_row: BabyBear::zero(),
        is_transition: BabyBear::one(),
    }
}

#[test]
fn bits_of_u32() {
    let bits = u32_to_bits_le(0b1011);
    assert_eq!(bits[0], BabyBear::one());
    assert_eq!(bits[1], BabyBear::one());
    assert_eq!(bits[2], BabyBear::zero());
    assert_eq!(bits[3], BabyBear::one());
    for b in bits.iter().skip(4) {
        assert_eq!(*b, BabyBear::zero());
    }
    let all = u32_to_bits_le(u32::MAX);
    assert!(all.iter().all(|b| *b == BabyBear::one()));
}

#[test]
fn bits_of_u64_and_limbs() {
    let v: u64 = 0x1234_5678_9abc_def0;
    let bits = u64_to_bits_le(v);
    for i in 0..64 {
        assert_eq!(bits[i], BabyBear::from_u32(((v >> i) & 1) as u32));
    }
    let limbs = u64_to_16_bit_limbs(v);
    assert_eq!(
        limbs,
        [
            BabyBear::from_u32(0xdef0),
            BabyBear::from_u32(0x9abc),
            BabyBear::from_u32(0x5678),
            BabyBear::from_u32(0x1234),
        ]
    );
}

#[test]
fn indices() {
    assert_eq!(indices_arr::<5>(), [0, 1, 2, 3, 4]);
    assert_eq!(indices_arr::<0>(), [0usize; 0]);
}

#[test]
fn pack_bits_round_trip() {
    let builder = SymbolicAirBuilder::new(0, 0, 0);
    for v in [0u32, 1, 0b1011, 0x8000_0000, P - 1, P, u32::MAX, 0xdead_beef] {
        let bits: Vec<SymbolicExpression> =
            u32_to_bits_le(v).iter().map(|b| SymbolicExpression::from(*b)).collect();
        assert_eq!(builder.pack_bits_le(&bits), c(v % P));
    }
    assert_eq!(c(u32::MAX % P), c(268435453));
}

#[test]
fn pack_bits_symbolic() {
    let builder = SymbolicAirBuilder::new(0, 3, 0);
    let bits = vec![
        SymbolicExpression::from(var(0)),
        SymbolicExpression::from(var(1)),
        SymbolicExpression::from(var(2)),
    ];
    let packed = builder.pack_bits_le(&bits);
    assert_eq!(packed.degree_multiple(), 1);
    let eval = row_evaluator(&[1, 0, 1]);
    assert_eq!(eval.evaluate(&packed), BabyBear::from_u32(5));
    assert_eq!(builder.pack_bits_le(&[]), c(0));
}

#[test]
fn xor_on_bits() {
    let builder = SymbolicAirBuilder::new(0, 0, 0);
    for a in 0..2u32 {
        for b in 0..2u32 {
            assert_eq!(builder.xor(c(a), c(b)), c(a ^ b));
            assert_eq!(builder.andn(c(a), c(b)), c((1 - a) & b));
            for d in 0..2u32 {
                assert_eq!(builder.xor3(c(a), c(b), c(d)), c(a ^ b ^ d));
            }
        }
    }
    assert_eq!(builder.xor(c(2), c(3)), c(P - 7));
    assert_eq!(builder.andn(c(3), c(5)), c(P - 10));
}

#[test]
fn xor_symbolic_shape() {
    let builder = SymbolicAirBuilder::new(0, 2, 0);
    let x = SymbolicExpression::from(var(0));
    let y = SymbolicExpression::from(var(1));
    let r = builder.xor(x.clone(), y.clone());
    let expected = x.clone().add(y.clone()).sub(c(2).mul(x.clone()).mul(y.clone()));
    assert_eq!(r, expected);
    assert_eq!(r.degree_multiple(), 2);
    for (a, b) in [(0u32, 0u32), (0, 1), (1, 0), (1, 1)] {
        let eval = row_evaluator(&[a, b]);
        assert_eq!(eval.evaluate(&r), BabyBear::from_u32(a ^ b));
        let n = builder.andn(x.clone(), y.clone());
        assert_eq!(eval.evaluate(&n), BabyBear::from_u32((1 - a) & b));
    }
}

fn limbs(v: u32) -> [u32; 2] {
    [v & 0xffff, v >> 16]
}

#[test]
fn add2_constraints_vanish_on_sums() {
    let cases = [(0u32, 0u32), (1, 2), (0xffff, 1), (0xffff_ffff, 1), (0x8000_0000, 0x8000_0000), (0x1234_5678, 0xfedc_ba98)];
    for (b, cv) in cases {
        let a = b.wrapping_add(cv);
        let mut builder = SymbolicAirBuilder::new(0, 6, 0);
        let c_exprs = [SymbolicExpression::from(var(4)), SymbolicExpression::from(var(5))];
        add2(&mut builder, &[var(0), var(1)], &[var(2), var(3)], &c_exprs);
        let cs = builder.constraints();
        assert_eq!(cs.len(), 2);
        assert_eq!(cs[0].degree_multiple(), 2);
        let [a0, a1] = limbs(a);
        let [b0, b1] = limbs(b);
        let [c0, c1] = limbs(cv);
        let eval = row_evaluator(&[a0, a1, b0, b1, c0, c1]);
        assert_eq!(eval.evaluate(&cs[0]), BabyBear::zero());
        assert_eq!(eval.evaluate(&cs[1]), BabyBear::zero());
        let wrong = row_evaluator(&[a0 ^ 1, a1, b0, b1, c0, c1]);
        assert!(!wrong.evaluate(&cs[1]).is_zero());
    }
}

#[test]
fn add3_constraints_vanish_on_sums() {
    let cases = [(0u32, 0u32, 0u32), (0xffff_ffff, 0xffff_ffff, 0xffff_ffff), (7, 0xffff, 0x1_0000)];
    for (b, cv, dv) in cases {
        let a = b.wrapping_add(cv).wrapping_add(dv);
        let mut builder = SymbolicAirBuilder::new(0, 8, 0);
        let c_exprs = [SymbolicExpression::from(var(4)), SymbolicExpression::from(var(5))];
        let d_exprs = [SymbolicExpression::from(var(6)), SymbolicExpression::from(var(7))];
        add3(&mut builder, &[var(0), var(1)], &[var(2), var(3)], &c_exprs, &d_exprs);
        let cs = builder.constraints();
        assert_eq!(cs.len(), 2);
        assert_eq!(cs[0].degree_multiple(), 3);
        let [a0, a1] = limbs(a);
        let [b0, b1] = limbs(b);
        let [c0, c1] = limbs(cv);
        let [d0, d1] = limbs(dv);
        let eval = row_evaluator(&[a0, a1, b0, b1, c0, c1, d0, d1]);
        assert_eq!(eval.evaluate(&cs[0]), BabyBear::zero());
        assert_eq!(eval.evaluate(&cs[1]), BabyBear::zero());
        let wrong = row_evaluator(&[a0, a1 ^ 4, b0, b1, c0, c1, d0, d1]);
        assert!(!wrong.evaluate(&cs[0]).is_zero());
    }
}

#[test]
fn xor_32_shift_constraints_vanish() {
    for shift in [0usize, 1, 7, 16, 31, 32] {
        let b: u32 = 0x1357_9bdf;
        let cv: u32 = 0xf0e1_d2c3;
        let a = b ^ cv.rotate_left(shift as u32);
        let mut builder = SymbolicAirBuilder::new(0, 66, 0);
        let a_vars = [var(0), var(1)];
        let b_vars: [SymbolicVariable; 32] = std::array::from_fn(|i| var(2 + i));
        let c_vars: [SymbolicVariable; 32] = std::array::from_fn(|i| var(34 + i));
        xor_32_shift(&mut builder, &a_vars, &b_vars, &c_vars, shift);
        let cs = builder.constraints();
        assert_eq!(cs.len(), 34);
        let mut row = vec![a & 0xffff, a >> 16];
        row.extend((0..32).map(|i| (b >> i) & 1));
        row.extend((0..32).map(|i| (cv >> i) & 1));
        let eval = row_evaluator(&row);
        for e in cs.iter() {
            assert_eq!(eval.evaluate(e), BabyBear::zero());
        }
        row[0] ^= 1;
        let wrong = row_evaluator(&row);
        assert!(!wrong.evaluate(&cs[32]).is_zero());
    }
}

#[test]
fn xor_32_shift_range_checks_c() {
    let mut builder = SymbolicAirBuilder::new(0, 66, 0);
    let a_vars = [var(0), var(1)];
    let b_vars: [SymbolicVariable; 32] = std::array::from_fn(|i| var(2 + i));
    let c_vars: [SymbolicVariable; 32] = std::array::from_fn(|i| var(34 + i));
    xor_32_shift(&mut builder, &a_vars, &b_vars, &c_vars, 3);
    let cs = builder.constraints();
    let mut row = vec![0u32; 66];
    row[34] = 2;
    let eval = row_evaluator(&row);
    assert_eq!(eval.evaluate(&cs[0]), BabyBear::from_u32(2));
}

#[test]
fn pair_columns() {
    let prep = [10u32, 20, 30];
    let main = [1u32, 2];
    assert_eq!(PairCol::Preprocessed(2).get(&prep, &main), 30);
    assert_eq!(PairCol::Main(1).get(&prep, &main), 2);
}

#[test]
fn virtual_columns() {
    let f = |v: u32| BabyBear::from_u32(v);
    let prep = [f(10), f(20), f(30)];
    let main = [f(1), f(2), f(5)];
    assert_eq!(VirtualPairCol::constant(f(7)).apply(&prep, &main), f(7));
    assert_eq!(VirtualPairCol::single(PairCol::Main(2)).apply(&prep, &main), f(5));
    assert_eq!(VirtualPairCol::single_preprocessed(1).apply(&prep, &main), f(20));
    assert_eq!(VirtualPairCol::single_main(0).apply(&prep, &main), f(1));
    assert_eq!(VirtualPairCol::sum_main(vec![0, 1, 2]).apply(&prep, &main), f(8));
    assert_eq!(VirtualPairCol::sum_preprocessed(vec![0, 2]).apply(&prep, &main), f(40));
    assert_eq!(VirtualPairCol::diff_main(0, 2).apply(&prep, &main), f(P - 4));
    assert_eq!(VirtualPairCol::diff_preprocessed(2, 0).apply(&prep, &main), f(20));
    let v = VirtualPairCol::new(vec![(PairCol::Main(1), f(3)), (PairCol::Preprocessed(0), f(2))], f(100));
    assert_eq!(v.apply(&prep, &main), f(126));
    let w = VirtualPairCol::new_main(vec![(2, f(4))], f(1));
    assert_eq!(w.apply(&prep, &main), f(21));
    let u = VirtualPairCol::new_preprocessed(vec![(1, f(P - 1))], f(0));
    assert_eq!(u.apply(&prep, &main), f(P - 20));
}

#[test]
fn debug_builder_assertions() {
    let mut eval = row_evaluator(&[3, 4]);
    eval.row_index = 5;
    assert_eq!(eval.assert_zero(BabyBear::zero()), Ok(()));
    assert_eq!(
        eval.assert_zero(BabyBear::from_u32(2)),
        Err(RowFailure::NonZero { row: 5, value: BabyBear::from_u32(2) })
    );
    assert_eq!(eval.assert_eq(BabyBear::from_u32(7), BabyBear::from_u32(P + 7)), Ok(()));
    assert_eq!(
        eval.assert_eq(BabyBear::from_u32(1), BabyBear::from_u32(0)),
        Err(RowFailure::Mismatch { row: 5, left: BabyBear::one(), right: BabyBear::zero() })
    );
    assert_eq!(eval.is_first_row(), BabyBear::one());
    assert_eq!(eval.is_last_row(), BabyBear::zero());
    assert_eq!(eval.is_transition_window(2), BabyBear::one());
    assert_eq!(eval.from_u32(P + 1), eval.one());
    assert_eq!(eval.zero(), BabyBear::zero());
    assert_eq!(eval.public_values().len(), 0);
    let e = SymbolicExpression::IsFirstRow.mul(SymbolicExpression::from(var(1)));
    assert_eq!(eval.evaluate(&e), BabyBear::from_u32(4));
}
