//! Bit-level gadgets written against the symbolic builder, and integer
//! decompositions into field elements.

use vstd::prelude::*;
use vstd::arithmetic::power2::{pow2, lemma_pow2_unfold, lemma_pow2_adds, lemma_pow2_pos};
use crate::field::{BabyBear, P, f_add, f_sub, f_mul};
use crate::symbolic_builder::{SymbolicAirBuilder, spec_xor, spec_pack};
use crate::symbolic_expression::{
    SymbolicExpression, spec_add, spec_sub, spec_mul, const_expr, lemma_op_degrees,
    lemma_eval_ops, lemma_eval_range, canonical,
};
use crate::symbolic_variable::SymbolicVariable;

verus! {

/// Bit `i` of `v`.
pub open spec fn bit_of(v: int, i: nat) -> int {
    (v / (pow2(i) as int)) % 2
}

/// The `i`-th 16-bit limb of `v`, least significant first.
pub open spec fn limb_of(v: int, i: nat) -> int {
    (v / (pow2(16 * i) as int)) % 0x10000
}

/// `v / 2^(i+1)` is `(v / 2^i) / 2`.
proof fn lemma_halve(v: int, i: nat)
    requires
        v >= 0,
    ensures
        v / (pow2(i + 1) as int) == (v / (pow2(i) as int)) / 2,
{
    lemma_pow2_pos(i);
    lemma_pow2_unfold(i + 1);
    assert(pow2(i + 1) == pow2(i) * 2);
    vstd::arithmetic::div_mod::lemma_div_denominator(v, pow2(i) as int, 2);
}

/// `v / 2^(16(i+1))` is `(v / 2^(16 i)) / 2^16`.
proof fn lemma_shift16(v: int, i: nat)
    requires
        v >= 0,
    ensures
        v / (pow2(16 * (i + 1)) as int) == (v / (pow2(16 * i) as int)) / 0x10000,
{
    lemma_pow2_pos(16 * i);
    lemma_pow2_adds(16 * i, 16);
    vstd::arithmetic::power2::lemma2_to64();
    assert(16 * (i + 1) == 16 * i + 16);
    vstd::arithmetic::div_mod::lemma_div_denominator(v, pow2(16 * i) as int, 0x10000);
}

/// The 32 bits of `val` as field elements, least significant first.
pub fn u32_to_bits_le(val: u32) -> (r: [BabyBear; 32])
    ensures
        forall|i: int| 0 <= i < 32 ==> (#[trigger] r@[i]).wf() && r@[i].val() == bit_of(val as int, i as nat),
{
    let mut out = [BabyBear::zero(); 32];
    let mut w: u32 = val;
    let mut i: usize = 0;
    proof {
        vstd::arithmetic::power2::lemma2_to64();
    }
    while i < 32
        invariant
            i <= 32,
            w as int == val as int / (pow2(i as nat) as int),
            forall|k: int| 0 <= k < i ==> (#[trigger] out@[k]).wf() && out@[k].val() == bit_of(val as int, k as nat),
        decreases 32 - i,
    {
        out[i] = BabyBear::from_u32(w % 2);
        proof {
            lemma_halve(val as int, i as nat);
        }
        w = w / 2;
        i = i + 1;
    }
    out
}

/// The 64 bits of `val` as field elements, least significant first.
pub fn u64_to_bits_le(val: u64) -> (r: [BabyBear; 64])
    ensures
        forall|i: int| 0 <= i < 64 ==> (#[trigger] r@[i]).wf() && r@[i].val() == bit_of(val as int, i as nat),
{
    let mut out = [BabyBear::zero(); 64];
    let mut w: u64 = val;
    let mut i: usize = 0;
    proof {
        vstd::arithmetic::power2::lemma2_to64();
    }
    while i < 64
        invariant
            i <= 64,
            w as int == val as int / (pow2(i as nat) as int),
            forall|k: int| 0 <= k < i ==> (#[trigger] out@[k]).wf() && out@[k].val() == bit_of(val as int, k as nat),
        decreases 64 - i,
    {
        out[i] = BabyBear::from_u64(w % 2);
        proof {
            lemma_halve(val as int, i as nat);
        }
        w = w / 2;
        i = i + 1;
    }
    out
}

/// The four 16-bit limbs of `val` as field elements, least significant first.
pub fn u64_to_16_bit_limbs(val: u64) -> (r: [BabyBear; 4])
    ensures
        forall|i: int| 0 <= i < 4 ==> (#[trigger] r@[i]).wf() && r@[i].val() == limb_of(val as int, i as nat),
{
    let mut out = [BabyBear::zero(); 4];
    let mut w: u64 = val;
    let mut i: usize = 0;
    proof {
        vstd::arithmetic::power2::lemma2_to64();
        assert(16 * 0nat == 0);
    }
    while i < 4
        invariant
            i <= 4,
            w as int == val as int / (pow2(16 * (i as nat)) as int),
            forall|k: int| 0 <= k < i ==> (#[trigger] out@[k]).wf() && out@[k].val() == limb_of(val as int, k as nat),
        decreases 4 - i,
    {
        out[i] = BabyBear::from_u64(w % 0x10000);
        proof {
            lemma_shift16(val as int, i as nat);
            assert(16 * ((i + 1) as nat) == 16 * (i as nat + 1));
        }
        w = w / 0x10000;
        i = i + 1;
    }
    out
}

/// Returns `[0, 1, ..., N - 1]`.
pub fn indices_arr<const N: usize>() -> (r: [usize; N])
    ensures
        forall|i: int| 0 <= i < N ==> r@[i] == i,
{
    let mut out = [0usize; N];
    let mut i: usize = 0;
    while i < N
        invariant
            i <= N,
            forall|k: int| 0 <= k < i ==> out@[k] == k,
        decreases N - i,
    {
        out[i] = i;
        i = i + 1;
    }
    out
}

/// A variable as an expression.
pub open spec fn var_expr(v: SymbolicVariable) -> SymbolicExpression {
    SymbolicExpression::Variable(v)
}

/// The constant `2^16`.
pub open spec fn two_16() -> SymbolicExpression {
    const_expr(0x10000)
}

/// The constant `2^32 mod P`, as `2^16 * 2^16`.
pub open spec fn two_32() -> SymbolicExpression {
    spec_mul(two_16(), two_16())
}

/// `x * (x + k)`.
pub open spec fn root_pair(x: SymbolicExpression, k: SymbolicExpression) -> SymbolicExpression {
    spec_mul(x, spec_add(x, k))
}

/// `x * (x + k) * (x + k + k)`.
pub open spec fn root_triple(x: SymbolicExpression, k: SymbolicExpression) -> SymbolicExpression {
    spec_mul(spec_mul(x, spec_add(x, k)), spec_add(spec_add(x, k), k))
}

/// The low-limb difference `a[0] - b[0] - c[0]` of `add2`.
pub open spec fn add2_acc_16(
    a: [SymbolicVariable; 2],
    b: [SymbolicVariable; 2],
    c: [SymbolicExpression; 2],
) -> SymbolicExpression {
    spec_sub(spec_sub(var_expr(a@[0]), var_expr(b@[0])), c@[0])
}

/// The full difference `acc_16 + 2^16 (a[1] - b[1] - c[1])` of `add2`.
pub open spec fn add2_acc(
    a: [SymbolicVariable; 2],
    b: [SymbolicVariable; 2],
    c: [SymbolicExpression; 2],
) -> SymbolicExpression {
    spec_add(
        add2_acc_16(a, b, c),
        spec_mul(two_16(), spec_sub(spec_sub(var_expr(a@[1]), var_expr(b@[1])), c@[1])),
    )
}

/// The low-limb difference `a[0] - b[0] - c[0] - d[0]` of `add3`.
pub open spec fn add3_acc_16(
    a: [SymbolicVariable; 2],
    b: [SymbolicVariable; 2],
    c: [SymbolicExpression; 2],
    d: [SymbolicExpression; 2],
) -> SymbolicExpression {
    spec_sub(spec_sub(spec_sub(var_expr(a@[0]), var_expr(b@[0])), c@[0]), d@[0])
}

/// The full difference `acc_16 + 2^16 (a[1] - b[1] - c[1] - d[1])` of `add3`.
pub open spec fn add3_acc(
    a: [SymbolicVariable; 2],
    b: [SymbolicVariable; 2],
    c: [SymbolicExpression; 2],
    d: [SymbolicExpression; 2],
) -> SymbolicExpression {
    spec_add(
        add3_acc_16(a, b, c, d),
        spec_mul(
            two_16(),
            spec_sub(spec_sub(spec_sub(var_expr(a@[1]), var_expr(b@[1])), c@[1]), d@[1]),
        ),
    )
}

/// `x * (x - 1)`, zero exactly on bits.
pub open spec fn bool_check(x: SymbolicExpression) -> SymbolicExpression {
    spec_mul(x, spec_sub(x, const_expr(1)))
}

/// The sixteen bits `b[start + i] xor c[(32 + start + i - shift) mod 32]`.
pub open spec fn shifted_xor_bits(
    b: Seq<SymbolicVariable>,
    c: Seq<SymbolicVariable>,
    shift: int,
    start: int,
) -> Seq<SymbolicExpression> {
    Seq::new(
        16,
        |i: int| spec_xor(var_expr(b[start + i]), var_expr(c[(32 + start + i - shift) % 32])),
    )
}

/// The constraints of `xor_32_shift`: every bit of `c` is boolean, and the
/// two limbs of `a` equal the packed bits of `b xor (c << shift)`.
pub open spec fn xor_32_shift_constraints(
    a: Seq<SymbolicVariable>,
    b: Seq<SymbolicVariable>,
    c: Seq<SymbolicVariable>,
    shift: int,
) -> Seq<SymbolicExpression> {
    Seq::new(32, |i: int| bool_check(var_expr(c[i]))).push(
        spec_sub(var_expr(a[0]), spec_pack(shifted_xor_bits(b, c, shift, 0))),
    ).push(spec_sub(var_expr(a[1]), spec_pack(shifted_xor_bits(b, c, shift, 16))))
}

/// Asserts `a = b + c mod 2^32`, all three given as two 16-bit limbs, by the
/// constraints `acc (acc + 2^32) = 0` and `acc_16 (acc_16 + 2^16) = 0`.
/// Sound over fields with `P > 2^17`, when every limb is range-checked
/// elsewhere.
pub fn add2(
    builder: &mut SymbolicAirBuilder,
    a: &[SymbolicVariable; 2],
    b: &[SymbolicVariable; 2],
    c: &[SymbolicExpression; 2],
)
    requires
        c@[0].wf(),
        c@[1].wf(),
        2 * (1 + c@[0].degree() + c@[1].degree()) <= usize::MAX,
    ensures
        final(builder).emitted() == old(builder).emitted().push(
            root_pair(add2_acc(*a, *b, *c), two_32()),
        ).push(root_pair(add2_acc_16(*a, *b, *c), two_16())),
        final(builder).same_shape(*old(builder)),
{
    let ghost d: nat = 1 + c@[0].degree() + c@[1].degree();
    let t16 = builder.from_u32(0x10000);
    let t32 = t16.clone_shallow().mul(t16.clone_shallow());
    let a0 = SymbolicExpression::Variable(a[0]);
    let b0 = SymbolicExpression::Variable(b[0]);
    let a1 = SymbolicExpression::Variable(a[1]);
    let b1 = SymbolicExpression::Variable(b[1]);
    proof {
        lemma_op_degrees(a0, b0);
        lemma_op_degrees(spec_sub(a0, b0), c@[0]);
        lemma_op_degrees(a1, b1);
        lemma_op_degrees(spec_sub(a1, b1), c@[1]);
    }
    let acc_16 = a0.sub(b0).sub(c[0].clone_shallow());
    let acc_32 = a1.sub(b1).sub(c[1].clone_shallow());
    proof {
        lemma_op_degrees(t16, acc_32);
        lemma_op_degrees(acc_16, spec_mul(t16, acc_32));
    }
    let acc = acc_16.clone_shallow().add(t16.clone_shallow().mul(acc_32));
    proof {
        lemma_op_degrees(acc, t32);
        lemma_op_degrees(acc, spec_add(acc, t32));
        lemma_op_degrees(acc_16, t16);
        lemma_op_degrees(acc_16, spec_add(acc_16, t16));
    }
    let e1 = acc.clone_shallow().mul(acc.add(t32));
    let e2 = acc_16.clone_shallow().mul(acc_16.add(t16));
    builder.assert_zero(e1);
    builder.assert_zero(e2);
}

/// Asserts `a = b + c + d mod 2^32`, all given as two 16-bit limbs, by the
/// constraints `acc (acc + 2^32) (acc + 2 * 2^32) = 0` and
/// `acc_16 (acc_16 + 2^16) (acc_16 + 2 * 2^16) = 0`. Sound over fields with
/// `P > 3 * 2^16`, when every limb is range-checked elsewhere.
pub fn add3(
    builder: &mut SymbolicAirBuilder,
    a: &[SymbolicVariable; 2],
    b: &[SymbolicVariable; 2],
    c: &[SymbolicExpression; 2],
    d: &[SymbolicExpression; 2],
)
    requires
        c@[0].wf(),
        c@[1].wf(),
        d@[0].wf(),
        d@[1].wf(),
        3 * (1 + c@[0].degree() + c@[1].degree() + d@[0].degree() + d@[1].degree())
            <= usize::MAX,
    ensures
        final(builder).emitted() == old(builder).emitted().push(
            root_triple(add3_acc(*a, *b, *c, *d), two_32()),
        ).push(root_triple(add3_acc_16(*a, *b, *c, *d), two_16())),
        final(builder).same_shape(*old(builder)),
{
    let t16 = builder.from_u32(0x10000);
    let t32 = t16.clone_shallow().mul(t16.clone_shallow());
    let acc_16 = limb_diff3(a[0], b[0], c[0].clone_shallow(), d[0].clone_shallow());
    let acc_32 = limb_diff3(a[1], b[1], c[1].clone_shallow(), d[1].clone_shallow());
    proof {
        lemma_op_degrees(t16, acc_32);
        lemma_op_degrees(acc_16, spec_mul(t16, acc_32));
    }
    let acc = acc_16.clone_shallow().add(t16.clone_shallow().mul(acc_32));
    let e1 = triple_root(acc, t32);
    let e2 = triple_root(acc_16, t16);
    builder.assert_zero(e1);
    builder.assert_zero(e2);
}

/// `a - b - c - d` for one limb.
fn limb_diff3(
    a: SymbolicVariable,
    b: SymbolicVariable,
    c: SymbolicExpression,
    d: SymbolicExpression,
) -> (r: SymbolicExpression)
    requires
        c.wf(),
        d.wf(),
    ensures
        r == spec_sub(spec_sub(spec_sub(var_expr(a), var_expr(b)), c), d),
        r.wf(),
        r.degree() <= 1 + c.degree() + d.degree(),
{
    let a0 = SymbolicExpression::Variable(a);
    let b0 = SymbolicExpression::Variable(b);
    proof {
        lemma_op_degrees(a0, b0);
        lemma_op_degrees(spec_sub(a0, b0), c);
        lemma_op_degrees(spec_sub(spec_sub(a0, b0), c), d);
    }
    a0.sub(b0).sub(c).sub(d)
}

/// `x (x + k) (x + k + k)` for a constant `k`.
fn triple_root(x: SymbolicExpression, k: SymbolicExpression) -> (r: SymbolicExpression)
    requires
        x.wf(),
        k.wf(),
        k is Constant,
        3 * x.degree() <= usize::MAX,
    ensures
        r == root_triple(x, k),
        r.wf(),
{
    proof {
        lemma_op_degrees(x, k);
        lemma_op_degrees(spec_add(x, k), k);
        lemma_op_degrees(x, spec_add(x, k));
        lemma_op_degrees(spec_mul(x, spec_add(x, k)), spec_add(spec_add(x, k), k));
    }
    let p = x.clone_shallow().mul(x.clone_shallow().add(k.clone_shallow()));
    p.mul(x.add(k.clone_shallow()).add(k))
}

/// The sixteen xor bits of `xor_32_shift` that start at bit `start`.
fn shifted_xors(
    builder: &SymbolicAirBuilder,
    b: &[SymbolicVariable; 32],
    c: &[SymbolicVariable; 32],
    shift: usize,
    start: usize,
) -> (r: Vec<SymbolicExpression>)
    requires
        shift <= 32,
        start == 0 || start == 16,
    ensures
        r@ == shifted_xor_bits(b@, c@, shift as int, start as int),
        forall|i: int| 0 <= i < r@.len() ==> (#[trigger] r@[i]).wf(),
{
    let mut out: Vec<SymbolicExpression> = Vec::new();
    let mut i: usize = 0;
    while i < 16
        invariant
            i <= 16,
            shift <= 32,
            start == 0 || start == 16,
            out@.len() == i,
            forall|k: int| 0 <= k < i ==> (#[trigger] out@[k]) == shifted_xor_bits(b@, c@, shift as int, start as int)[k],
            forall|k: int| 0 <= k < i ==> (#[trigger] out@[k]).wf(),
        decreases 16 - i,
    {
        let x = SymbolicExpression::Variable(b[start + i]);
        let y = SymbolicExpression::Variable(c[(32 + start + i - shift) % 32]);
        out.push(builder.xor(x, y));
        i = i + 1;
    }
    assert(out@ =~= shifted_xor_bits(b@, c@, shift as int, start as int));
    out
}

/// Asserts `a = b xor (c << shift)` (a rotation of the 32 bits of `c`), with
/// `a` as two 16-bit limbs and `b`, `c` as 32 bits each. Every bit of `c` is
/// range-checked here; those of `b` are assumed checked.
pub fn xor_32_shift(
    builder: &mut SymbolicAirBuilder,
    a: &[SymbolicVariable; 2],
    b: &[SymbolicVariable; 32],
    c: &[SymbolicVariable; 32],
    shift: usize,
)
    requires
        shift <= 32,
    ensures
        final(builder).emitted() == old(builder).emitted() + xor_32_shift_constraints(
            a@,
            b@,
            c@,
            shift as int,
        ),
        final(builder).same_shape(*old(builder)),
{
    let ghost start = builder.emitted();
    let mut i: usize = 0;
    while i < 32
        invariant
            i <= 32,
            builder.same_shape(*old(builder)),
            builder.emitted() == start + Seq::new(i as nat, |k: int| bool_check(var_expr(c@[k]))),
        decreases 32 - i,
    {
        let ghost before = builder.emitted();
        builder.assert_bool(SymbolicExpression::Variable(c[i]));
        i = i + 1;
        proof {
            assert(builder.emitted() =~= start + Seq::new(i as nat, |k: int| bool_check(var_expr(c@[k]))));
        }
    }
    let lo = shifted_xors(builder, b, c, shift, 0);
    let sum_lo = builder.pack_bits_le(lo.as_slice());
    let hi = shifted_xors(builder, b, c, shift, 16);
    let sum_hi = builder.pack_bits_le(hi.as_slice());
    builder.assert_eq(SymbolicExpression::Variable(a[0]), sum_lo);
    builder.assert_eq(SymbolicExpression::Variable(a[1]), sum_hi);
    proof {
        assert(builder.emitted() =~= start + xor_32_shift_constraints(a@, b@, c@, shift as int));
    }
}

/// Field elements as constant expressions.
pub open spec fn constants(s: Seq<BabyBear>) -> Seq<SymbolicExpression> {
    s.map_values(|b: BabyBear| SymbolicExpression::Constant(b))
}

/// Packing the bits of `v` from bit `i` on gives the constant `(v >> i) mod P`.
proof fn lemma_pack_suffix(v: u32, bits: Seq<BabyBear>, i: int)
    requires
        bits.len() == 32,
        forall|k: int| 0 <= k < 32 ==> (#[trigger] bits[k]).wf() && bits[k].val() == bit_of(v as int, k as nat),
        0 <= i <= 32,
    ensures
        spec_pack(constants(bits).subrange(i, 32)) == const_expr(
            (v as int / (pow2(i as nat) as int)) % (P as int),
        ),
    decreases 32 - i,
{
    let cs = constants(bits);
    vstd::arithmetic::power2::lemma2_to64();
    if i == 32 {
        assert(cs.subrange(32, 32) =~= Seq::<SymbolicExpression>::empty());
        assert(v as int / (pow2(32) as int) == 0);
    } else {
        lemma_pack_suffix(v, bits, i + 1);
        let s = cs.subrange(i, 32);
        assert(s.drop_first() =~= cs.subrange(i + 1, 32));
        assert(s[0] == SymbolicExpression::Constant(bits[i]));
        let q = v as int / (pow2((i + 1) as nat) as int);
        let w = v as int / (pow2(i as nat) as int);
        lemma_pow2_pos(i as nat);
        lemma_halve(v as int, i as nat);
        vstd::arithmetic::div_mod::lemma_fundamental_div_mod(w, 2);
        assert(w == 2 * q + bits[i].val());
        let a = BabyBear { v: (q % (P as int)) as u32 };
        let two = BabyBear { v: 2 };
        crate::symbolic_expression::lemma_constant_folding(a, two);
        let m = f_mul(q % (P as int), 2);
        let c = BabyBear { v: m as u32 };
        crate::symbolic_expression::lemma_constant_folding(c, bits[i]);
        vstd::arithmetic::div_mod::lemma_mul_mod_noop_left(q, 2, P as int);
        vstd::arithmetic::div_mod::lemma_add_mod_noop(2 * q, bits[i].val(), P as int);
        vstd::arithmetic::div_mod::lemma_small_mod(bits[i].val() as nat, P as nat);
        vstd::arithmetic::div_mod::lemma_mod_twice(2 * q, P as int);
        assert(f_add(m, bits[i].val()) == w % (P as int));
    }
}

/// Round trip: packing the 32 bits of `v` (as constants) gives the constant
/// `v mod P`.
pub proof fn lemma_pack_bits_round_trip(v: u32, bits: Seq<BabyBear>)
    requires
        bits.len() == 32,
        forall|k: int| 0 <= k < 32 ==> (#[trigger] bits[k]).wf() && bits[k].val() == bit_of(v as int, k as nat),
    ensures
        spec_pack(constants(bits)) == const_expr(v as int % (P as int)),
{
    lemma_pack_suffix(v, bits, 0);
    assert(constants(bits).subrange(0, 32) =~= constants(bits));
    vstd::arithmetic::power2::lemma2_to64();
}

/// Field operations on residues of integers are the residues of the integer
/// operations.
proof fn lemma_ring(x: int, y: int)
    ensures
        f_add(x % (P as int), y % (P as int)) == (x + y) % (P as int),
        f_sub(x % (P as int), y % (P as int)) == (x - y) % (P as int),
        f_mul(x % (P as int), y % (P as int)) == (x * y) % (P as int),
{
    vstd::arithmetic::div_mod::lemma_add_mod_noop(x, y, P as int);
    vstd::arithmetic::div_mod::lemma_sub_mod_noop(x, y, P as int);
    vstd::arithmetic::div_mod::lemma_mul_mod_noop(x, y, P as int);
}

/// `a - b - c` for one limb evaluates to the residue of the integer
/// difference.
proof fn lemma_limb_diff_value(
    a: SymbolicVariable,
    b: SymbolicVariable,
    c: SymbolicExpression,
    var: spec_fn(SymbolicVariable) -> int,
    sel: (int, int, int),
)
    requires
        c.wf(),
        canonical(var, sel),
    ensures
        spec_sub(spec_sub(var_expr(a), var_expr(b)), c).eval(var, sel) == (var(a) - var(b)
            - c.eval(var, sel)) % (P as int),
        spec_sub(spec_sub(var_expr(a), var_expr(b)), c).wf(),
{
    let va = var_expr(a);
    let vb = var_expr(b);
    lemma_eval_range(c, var, sel);
    assert(0 <= var(a) < P && 0 <= var(b) < P);
    vstd::arithmetic::div_mod::lemma_small_mod(var(a) as nat, P as nat);
    vstd::arithmetic::div_mod::lemma_small_mod(var(b) as nat, P as nat);
    vstd::arithmetic::div_mod::lemma_small_mod(c.eval(var, sel) as nat, P as nat);
    lemma_eval_ops(va, vb, var, sel);
    lemma_op_degrees(va, vb);
    lemma_eval_ops(spec_sub(va, vb), c, var, sel);
    lemma_op_degrees(spec_sub(va, vb), c);
    lemma_ring(var(a), var(b));
    lemma_ring(var(a) - var(b), c.eval(var, sel));
}

/// `x (x + k)` vanishes when `x` evaluates to `d mod P` and `k` to `t mod P`,
/// with `d` either `0` or `-t`.
proof fn lemma_root_pair_value(
    x: SymbolicExpression,
    k: SymbolicExpression,
    var: spec_fn(SymbolicVariable) -> int,
    sel: (int, int, int),
    d: int,
    t: int,
)
    requires
        x.wf(),
        k.wf(),
        k is Constant,
        canonical(var, sel),
        x.eval(var, sel) == d % (P as int),
        k.eval(var, sel) == t % (P as int),
        d == 0 || d == -t,
    ensures
        root_pair(x, k).eval(var, sel) == 0,
{
    lemma_op_degrees(x, k);
    lemma_eval_ops(x, k, var, sel);
    lemma_op_degrees(x, spec_add(x, k));
    lemma_eval_ops(x, spec_add(x, k), var, sel);
    lemma_ring(d, t);
    vstd::arithmetic::div_mod::lemma_mod_twice(d + t, P as int);
    lemma_ring(d, d + t);
    assert(d * (d + t) == 0) by (nonlinear_arith)
        requires
            d == 0 || d == -t,
    ;
}

/// Completeness of `add2`: when `a` holds the 16-bit limbs of `b + c mod 2^32`,
/// with the carry of the low limbs added into the high limbs, both
/// constraints of `add2` vanish.
pub proof fn lemma_add2_complete(
    a: [SymbolicVariable; 2],
    b: [SymbolicVariable; 2],
    c: [SymbolicExpression; 2],
    var: spec_fn(SymbolicVariable) -> int,
    sel: (int, int, int),
)
    requires
        c@[0].wf(),
        c@[1].wf(),
        2 * (1 + c@[0].degree() + c@[1].degree()) <= usize::MAX,
        canonical(var, sel),
        var(b@[0]) < 0x10000,
        var(b@[1]) < 0x10000,
        c@[0].eval(var, sel) < 0x10000,
        c@[1].eval(var, sel) < 0x10000,
        var(a@[0]) == (var(b@[0]) + c@[0].eval(var, sel)) % 0x10000,
        var(a@[1]) == (var(b@[1]) + c@[1].eval(var, sel) + (var(b@[0]) + c@[0].eval(var, sel))
            / 0x10000) % 0x10000,
    ensures
        root_pair(add2_acc(a, b, c), two_32()).eval(var, sel) == 0,
        root_pair(add2_acc_16(a, b, c), two_16()).eval(var, sel) == 0,
{
    let pp = P as int;
    let a0 = var(a@[0]);
    let a1 = var(a@[1]);
    let b0 = var(b@[0]);
    let b1 = var(b@[1]);
    let c0 = c@[0].eval(var, sel);
    let c1 = c@[1].eval(var, sel);
    lemma_eval_range(c@[0], var, sel);
    lemma_eval_range(c@[1], var, sel);
    assert(0 <= var(b@[0]) && 0 <= var(b@[1]));
    let k = (b0 + c0) / 0x10000;
    let k2 = (b1 + c1 + k) / 0x10000;
    vstd::arithmetic::div_mod::lemma_fundamental_div_mod(b0 + c0, 0x10000);
    vstd::arithmetic::div_mod::lemma_fundamental_div_mod(b1 + c1 + k, 0x10000);
    assert(0 <= k <= 1);
    assert(0 <= k2 <= 1);
    let d16 = a0 - b0 - c0;
    let d32 = a1 - b1 - c1;
    assert(d16 == -k * 0x10000);
    assert(d32 == k - k2 * 0x10000);
    lemma_limb_diff_value(a@[0], b@[0], c@[0], var, sel);
    lemma_limb_diff_value(a@[1], b@[1], c@[1], var, sel);
    let acc_16 = add2_acc_16(a, b, c);
    let acc_32 = spec_sub(spec_sub(var_expr(a@[1]), var_expr(b@[1])), c@[1]);
    let t16 = two_16();
    assert(t16.eval(var, sel) == 0x10000int % pp);
    lemma_root_pair_value(acc_16, t16, var, sel, d16, 0x10000int);
    lemma_op_degrees(t16, acc_32);
    lemma_eval_ops(t16, acc_32, var, sel);
    lemma_ring(0x10000int, d32);
    lemma_op_degrees(acc_16, spec_mul(t16, acc_32));
    lemma_eval_ops(acc_16, spec_mul(t16, acc_32), var, sel);
    lemma_ring(d16, 0x10000 * d32);
    assert(d16 + 0x10000 * d32 == -k2 * 0x1_0000_0000) by (nonlinear_arith)
        requires
            d16 == -k * 0x10000,
            d32 == k - k2 * 0x10000,
    ;
    let t32 = two_32();
    lemma_ring(0x10000int, 0x10000int);
    assert(t32.eval(var, sel) == 0x1_0000_0000int % pp);
    lemma_root_pair_value(add2_acc(a, b, c), t32, var, sel, -k2 * 0x1_0000_0000, 0x1_0000_0000);
}

} // verus!
