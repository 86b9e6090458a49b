//! The symbolic builder: materialises the variables of the evaluation window
//! and records every asserted constraint as an expression.

use vstd::prelude::*;
use crate::field::{P, f_add, f_sub, f_mul};
use crate::symbolic_expression::{
    SymbolicExpression, spec_add, spec_sub, spec_mul, const_expr, nat_max, lemma_op_degrees,
    lemma_degree_contract, lemma_eval_ops, canonical,
};
use crate::symbolic_variable::{Entry, SymbolicVariable};
use crate::air::{Air, FilteredAirBuilder};
use vstd::arithmetic::power2::{pow2, lemma_pow2_unfold, lemma_pow2_pos};

verus! {

/// Variable number `k` of a two-row window of width `w`: row `k / w`,
/// column `k % w`, of the main trace or of the preprocessed trace.
pub open spec fn window_var(main: bool, w: nat, k: int) -> SymbolicVariable {
    let offset = (k / (w as int)) as usize;
    let index = (k % (w as int)) as usize;
    SymbolicVariable {
        entry: if main {
            Entry::Main { offset }
        } else {
            Entry::Preprocessed { offset }
        },
        index,
    }
}

/// The variables of a two-row window, row-major.
pub open spec fn window_vars(main: bool, w: nat) -> Seq<SymbolicVariable> {
    Seq::new(2 * w, |k: int| window_var(main, w, k))
}

/// The public-value variables `0..n`.
pub open spec fn public_vars(n: nat) -> Seq<SymbolicVariable> {
    Seq::new(n, |i: int| SymbolicVariable { entry: Entry::Public, index: i as usize })
}

/// The arithmetic generalisation of `x xor y`: `x + y - 2xy`.
pub open spec fn spec_xor(x: SymbolicExpression, y: SymbolicExpression) -> SymbolicExpression {
    spec_sub(spec_add(x, y), spec_mul(spec_mul(const_expr(2), x), y))
}

/// The arithmetic generalisation of `(not x) and y`: `(1 - x) y`.
pub open spec fn spec_andn(x: SymbolicExpression, y: SymbolicExpression) -> SymbolicExpression {
    spec_mul(spec_sub(const_expr(1), x), y)
}

/// Little-endian packing `s[0] + 2 (s[1] + 2 (s[2] + ...))`, built from the
/// last element to the first.
pub open spec fn spec_pack(s: Seq<SymbolicExpression>) -> SymbolicExpression
    decreases s.len(),
{
    if s.len() == 0 {
        const_expr(0)
    } else {
        spec_add(spec_mul(spec_pack(s.drop_first()), const_expr(2)), s[0])
    }
}

/// `xor` keeps well-formedness and its degree is at most the sum of the
/// operands' degrees.
pub proof fn lemma_xor_degree(x: SymbolicExpression, y: SymbolicExpression)
    requires
        x.wf(),
        y.wf(),
        x.degree() + y.degree() <= usize::MAX,
    ensures
        spec_xor(x, y).wf(),
        spec_xor(x, y).degree() <= x.degree() + y.degree(),
{
    let two = const_expr(2);
    lemma_op_degrees(two, x);
    lemma_op_degrees(spec_mul(two, x), y);
    lemma_op_degrees(x, y);
    lemma_op_degrees(spec_add(x, y), spec_mul(spec_mul(two, x), y));
}

/// `xor(x, y)` evaluates to `x + y - 2xy`; on bits, to their exclusive or.
pub proof fn lemma_xor_value(
    x: SymbolicExpression,
    y: SymbolicExpression,
    var: spec_fn(SymbolicVariable) -> int,
    sel: (int, int, int),
)
    requires
        x.wf(),
        y.wf(),
        x.degree() + y.degree() <= usize::MAX,
        canonical(var, sel),
    ensures
        spec_xor(x, y).eval(var, sel) == f_sub(
            f_add(x.eval(var, sel), y.eval(var, sel)),
            f_mul(f_mul(2, x.eval(var, sel)), y.eval(var, sel)),
        ),
        (x.eval(var, sel) == 0 || x.eval(var, sel) == 1) && (y.eval(var, sel) == 0 || y.eval(
            var,
            sel,
        ) == 1) ==> spec_xor(x, y).eval(var, sel) == (if x.eval(var, sel) != y.eval(var, sel) {
            1int
        } else {
            0int
        }),
{
    let two = const_expr(2);
    lemma_xor_degree(x, y);
    lemma_op_degrees(two, x);
    lemma_op_degrees(spec_mul(two, x), y);
    lemma_op_degrees(x, y);
    lemma_eval_ops(x, y, var, sel);
    lemma_eval_ops(two, x, var, sel);
    lemma_eval_ops(spec_mul(two, x), y, var, sel);
    lemma_eval_ops(spec_add(x, y), spec_mul(spec_mul(two, x), y), var, sel);
}

/// `andn(x, y)` evaluates to `(1 - x) y`; on bits, to `(not x) and y`.
pub proof fn lemma_andn_value(
    x: SymbolicExpression,
    y: SymbolicExpression,
    var: spec_fn(SymbolicVariable) -> int,
    sel: (int, int, int),
)
    requires
        x.wf(),
        y.wf(),
        x.degree() + y.degree() <= usize::MAX,
        canonical(var, sel),
    ensures
        spec_andn(x, y).eval(var, sel) == f_mul(f_sub(1, x.eval(var, sel)), y.eval(var, sel)),
        (x.eval(var, sel) == 0 || x.eval(var, sel) == 1) && (y.eval(var, sel) == 0 || y.eval(
            var,
            sel,
        ) == 1) ==> spec_andn(x, y).eval(var, sel) == (if x.eval(var, sel) == 0 && y.eval(var, sel)
            == 1 {
            1int
        } else {
            0int
        }),
{
    let one = const_expr(1);
    lemma_op_degrees(one, x);
    lemma_eval_ops(one, x, var, sel);
    lemma_eval_ops(spec_sub(one, x), y, var, sel);
}

/// A row-major matrix of symbolic variables.
pub struct VarMatrix {
    pub values: Vec<SymbolicVariable>,
    pub width: usize,
}

impl VarMatrix {
    pub open spec fn spec_height(self) -> nat {
        if self.width == 0 {
            0
        } else {
            (self.values@.len() / (self.width as nat)) as nat
        }
    }

    pub fn width(&self) -> (r: usize)
        ensures
            r == self.width,
    {
        self.width
    }

    pub fn height(&self) -> (r: usize)
        ensures
            r as nat == self.spec_height(),
    {
        if self.width == 0 {
            0
        } else {
            self.values.len() / self.width
        }
    }

    /// The cells of row `r`.
    pub fn row_slice(&self, r: usize) -> (s: &[SymbolicVariable])
        requires
            r < self.spec_height(),
        ensures
            s@ == self.values@.subrange(r * self.width, (r + 1) * self.width),
    {
        let w = self.width;
        let n = self.values.len();
        proof {
            lemma_row_in_bounds(r as int, w as int, n as int);
        }
        let s = self.values.as_slice();
        let a = r * w;
        let b = a + w;
        assert(b == (r + 1) * w) by (nonlinear_arith)
            requires
                a == r * w,
                b == a + w,
        ;
        &s[a..b]
    }

    /// The cell at row `r`, column `c`.
    pub fn get(&self, r: usize, c: usize) -> (v: SymbolicVariable)
        requires
            r < self.spec_height(),
            c < self.width,
        ensures
            v == self.values@[r * self.width + c],
    {
        proof {
            lemma_row_in_bounds(r as int, self.width as int, self.values.len() as int);
        }
        self.values[r * self.width + c]
    }
}

/// A row below `n / w` ends inside a buffer of length `n`.
proof fn lemma_row_in_bounds(r: int, w: int, n: int)
    requires
        w > 0,
        0 <= r < n / w,
        n >= 0,
    ensures
        (r + 1) * w <= n,
        r * w + w <= n,
        0 <= r * w,
{
    vstd::arithmetic::div_mod::lemma_fundamental_div_mod(n, w);
    vstd::arithmetic::mul::lemma_mul_inequality(r + 1, n / w, w);
    vstd::arithmetic::mul::lemma_mul_nonnegative(r, w);
    assert((r + 1) * w == r * w + w) by (nonlinear_arith);
    assert(w * (n / w) == (n / w) * w) by (nonlinear_arith);
}

/// The variables of a two-row window of width `w`.
fn make_window(main: bool, w: usize) -> (r: VarMatrix)
    ensures
        r.width == w,
        r.values@ == window_vars(main, w as nat),
{
    let mut values: Vec<SymbolicVariable> = Vec::new();
    let mut offset: usize = 0;
    while offset < 2
        invariant
            offset <= 2,
            values@.len() == offset * w,
            forall|k: int| 0 <= k < values@.len() ==> values@[k] == window_var(main, w as nat, k),
        decreases 2 - offset,
    {
        let mut i: usize = 0;
        while i < w
            invariant
                offset < 2,
                i <= w,
                values@.len() == offset * w + i,
                forall|k: int| 0 <= k < values@.len() ==> values@[k] == window_var(main, w as nat, k),
            decreases w - i,
        {
            let entry = if main {
                Entry::Main { offset }
            } else {
                Entry::Preprocessed { offset }
            };
            proof {
                let k = offset * w + i;
                vstd::arithmetic::div_mod::lemma_fundamental_div_mod_converse(
                    k as int,
                    w as int,
                    offset as int,
                    i as int,
                );
            }
            values.push(SymbolicVariable::new(entry, i));
            i = i + 1;
        }
        assert(offset * w + w == (offset + 1) * w) by (nonlinear_arith);
        offset = offset + 1;
    }
    assert(values@ =~= window_vars(main, w as nat));
    VarMatrix { values, width: w }
}

/// An `AirBuilder` that records constraints symbolically.
pub struct SymbolicAirBuilder {
    preprocessed: VarMatrix,
    main: VarMatrix,
    public_values: Vec<SymbolicVariable>,
    constraints: Vec<SymbolicExpression>,
}

impl SymbolicAirBuilder {
    #[verifier::type_invariant]
    spec fn inv(self) -> bool {
        &&& self.preprocessed.values@ == window_vars(false, self.preprocessed.width as nat)
        &&& self.main.values@ == window_vars(true, self.main.width as nat)
        &&& self.public_values@ == public_vars(self.public_values@.len())
        &&& forall|i: int| 0 <= i < self.constraints@.len() ==> (#[trigger] self.constraints@[i]).wf()
    }

    /// The constraints asserted so far, in order.
    pub closed spec fn emitted(self) -> Seq<SymbolicExpression> {
        self.constraints@
    }

    /// Width of the main trace.
    pub closed spec fn main_width(self) -> nat {
        self.main.width as nat
    }

    /// Width of the preprocessed trace.
    pub closed spec fn preprocessed_width(self) -> nat {
        self.preprocessed.width as nat
    }

    /// Number of public values.
    pub closed spec fn num_public_values(self) -> nat {
        self.public_values@.len()
    }

    /// The builder's shape (widths and public values) is that of `other`.
    pub open spec fn same_shape(self, other: SymbolicAirBuilder) -> bool {
        &&& self.main_width() == other.main_width()
        &&& self.preprocessed_width() == other.preprocessed_width()
        &&& self.num_public_values() == other.num_public_values()
    }

    /// A builder for an AIR with the given widths and number of public values,
    /// with no constraints yet.
    pub fn new(preprocessed_width: usize, width: usize, num_public_values: usize) -> (r:
        SymbolicAirBuilder)
        ensures
            r.emitted() == Seq::<SymbolicExpression>::empty(),
            r.main_width() == width,
            r.preprocessed_width() == preprocessed_width,
            r.num_public_values() == num_public_values,
    {
        let preprocessed = make_window(false, preprocessed_width);
        let main = make_window(true, width);
        let mut public_values: Vec<SymbolicVariable> = Vec::new();
        let mut i: usize = 0;
        while i < num_public_values
            invariant
                i <= num_public_values,
                public_values@ == public_vars(i as nat),
            decreases num_public_values - i,
        {
            public_values.push(SymbolicVariable::new(Entry::Public, i));
            i = i + 1;
            assert(public_values@ =~= public_vars(i as nat));
        }
        SymbolicAirBuilder { preprocessed, main, public_values, constraints: Vec::new() }
    }

    /// Hands over the recorded constraints.
    pub fn constraints(self) -> (r: Vec<SymbolicExpression>)
        ensures
            r@ == self.emitted(),
            forall|i: int| 0 <= i < r@.len() ==> (#[trigger] r@[i]).wf(),
    {
        proof {
            use_type_invariant(&self);
        }
        self.constraints
    }

    /// The current and next rows of main-trace variables.
    pub fn main(&self) -> (r: VarMatrix)
        ensures
            r.width == self.main_width(),
            r.values@ == window_vars(true, self.main_width()),
    {
        proof {
            use_type_invariant(self);
        }
        make_window(true, self.main.width)
    }

    /// The current and next rows of preprocessed-trace variables.
    pub fn preprocessed(&self) -> (r: VarMatrix)
        ensures
            r.width == self.preprocessed_width(),
            r.values@ == window_vars(false, self.preprocessed_width()),
    {
        proof {
            use_type_invariant(self);
        }
        make_window(false, self.preprocessed.width)
    }

    /// The public-value variables.
    pub fn public_values(&self) -> (r: &[SymbolicVariable])
        ensures
            r@ == public_vars(self.num_public_values()),
    {
        proof {
            use_type_invariant(self);
        }
        self.public_values.as_slice()
    }

    pub fn is_first_row(&self) -> (r: SymbolicExpression)
        ensures
            r == SymbolicExpression::IsFirstRow,
    {
        SymbolicExpression::IsFirstRow
    }

    pub fn is_last_row(&self) -> (r: SymbolicExpression)
        ensures
            r == SymbolicExpression::IsLastRow,
    {
        SymbolicExpression::IsLastRow
    }

    pub fn is_transition(&self) -> (r: SymbolicExpression)
        ensures
            r == SymbolicExpression::IsTransition,
    {
        self.is_transition_window(2)
    }

    /// The transition selector; only windows of two rows are supported.
    pub fn is_transition_window(&self, size: usize) -> (r: SymbolicExpression)
        requires
            size == 2,
        ensures
            r == SymbolicExpression::IsTransition,
    {
        SymbolicExpression::IsTransition
    }

    pub fn zero(&self) -> (r: SymbolicExpression)
        ensures
            r == const_expr(0),
            r.wf(),
    {
        SymbolicExpression::zero()
    }

    pub fn one(&self) -> (r: SymbolicExpression)
        ensures
            r == const_expr(1),
            r.wf(),
    {
        SymbolicExpression::one()
    }

    pub fn two(&self) -> (r: SymbolicExpression)
        ensures
            r == const_expr(2),
            r.wf(),
    {
        SymbolicExpression::one().add(SymbolicExpression::one())
    }

    pub fn from_u32(&self, val: u32) -> (r: SymbolicExpression)
        ensures
            r == const_expr(val as int % (P as int)),
            r.wf(),
    {
        SymbolicExpression::from_u32(val)
    }

    /// Records the constraint `x = 0`.
    pub fn assert_zero(&mut self, x: SymbolicExpression)
        requires
            x.wf(),
        ensures
            final(self).emitted() == old(self).emitted().push(x),
            final(self).same_shape(*old(self)),
    {
        proof {
            use_type_invariant(&*self);
        }
        let mut cs: Vec<SymbolicExpression> = Vec::new();
        std::mem::swap(&mut cs, &mut self.constraints);
        cs.push(x);
        proof {
            assert forall|i: int| 0 <= i < cs@.len() implies (#[trigger] cs@[i]).wf() by {
                if i < cs@.len() - 1 {
                    assert(old(self).constraints@[i] == cs@[i]);
                }
            }
        }
        std::mem::swap(&mut cs, &mut self.constraints);
    }

    /// Records the constraint `x - 1 = 0`.
    pub fn assert_one(&mut self, x: SymbolicExpression)
        requires
            x.wf(),
        ensures
            final(self).emitted() == old(self).emitted().push(spec_sub(x, const_expr(1))),
            final(self).same_shape(*old(self)),
    {
        let one = self.one();
        self.assert_zero(x.sub(one));
    }

    /// Records the constraint `x - y = 0`.
    pub fn assert_eq(&mut self, x: SymbolicExpression, y: SymbolicExpression)
        requires
            x.wf(),
            y.wf(),
        ensures
            final(self).emitted() == old(self).emitted().push(spec_sub(x, y)),
            final(self).same_shape(*old(self)),
    {
        self.assert_zero(x.sub(y));
    }

    /// Records the constraint `x * (x - 1) = 0`.
    pub fn assert_bool(&mut self, x: SymbolicExpression)
        requires
            x.wf(),
            2 * x.degree() <= usize::MAX,
        ensures
            final(self).emitted() == old(self).emitted().push(
                spec_mul(x, spec_sub(x, const_expr(1))),
            ),
            final(self).same_shape(*old(self)),
    {
        let one = self.one();
        proof {
            lemma_op_degrees(x, one);
        }
        let e = x.clone_shallow().mul(x.sub(one));
        self.assert_zero(e);
    }

    /// Records the constraint `x * (x - 1) * (x - 2) = 0`.
    pub fn assert_tern(&mut self, x: SymbolicExpression)
        requires
            x.wf(),
            3 * x.degree() <= usize::MAX,
        ensures
            final(self).emitted() == old(self).emitted().push(
                spec_mul(spec_mul(x, spec_sub(x, const_expr(1))), spec_sub(x, const_expr(2))),
            ),
            final(self).same_shape(*old(self)),
    {
        let one = self.one();
        let two = self.two();
        proof {
            lemma_op_degrees(x, one);
            lemma_op_degrees(x, two);
            lemma_op_degrees(x, spec_sub(x, one));
        }
        let xx = x.clone_shallow().mul(x.clone_shallow().sub(one));
        proof {
            lemma_op_degrees(xx, spec_sub(x, two));
        }
        let e = xx.mul(x.sub(two));
        self.assert_zero(e);
    }

    /// A sub-builder whose constraints are multiplied by `condition`.
    pub fn when(&mut self, condition: SymbolicExpression) -> (r: FilteredAirBuilder<'_>)
        requires
            condition.wf(),
        ensures
            *r.inner == *old(self),
            r.condition == condition,
            *final(self) == *final(r.inner),
    {
        FilteredAirBuilder::new(self, condition)
    }

    /// A sub-builder whose constraints hold where `x != y`.
    pub fn when_ne(&mut self, x: SymbolicExpression, y: SymbolicExpression) -> (r:
        FilteredAirBuilder<'_>)
        requires
            x.wf(),
            y.wf(),
        ensures
            *r.inner == *old(self),
            r.condition == spec_sub(x, y),
            *final(self) == *final(r.inner),
    {
        self.when(x.sub(y))
    }

    /// A sub-builder whose constraints hold on the first row.
    pub fn when_first_row(&mut self) -> (r: FilteredAirBuilder<'_>)
        ensures
            *r.inner == *old(self),
            r.condition == SymbolicExpression::IsFirstRow,
            *final(self) == *final(r.inner),
    {
        let c = self.is_first_row();
        self.when(c)
    }

    /// A sub-builder whose constraints hold on the last row.
    pub fn when_last_row(&mut self) -> (r: FilteredAirBuilder<'_>)
        ensures
            *r.inner == *old(self),
            r.condition == SymbolicExpression::IsLastRow,
            *final(self) == *final(r.inner),
    {
        let c = self.is_last_row();
        self.when(c)
    }

    /// A sub-builder whose constraints hold on every row but the last.
    pub fn when_transition(&mut self) -> (r: FilteredAirBuilder<'_>)
        ensures
            *r.inner == *old(self),
            r.condition == SymbolicExpression::IsTransition,
            *final(self) == *final(r.inner),
    {
        let c = self.is_transition();
        self.when(c)
    }

    /// A sub-builder whose constraints hold on every row but the last
    /// `size - 1`; only `size == 2` is supported.
    pub fn when_transition_window(&mut self, size: usize) -> (r: FilteredAirBuilder<'_>)
        requires
            size == 2,
        ensures
            *r.inner == *old(self),
            r.condition == SymbolicExpression::IsTransition,
            *final(self) == *final(r.inner),
    {
        let c = self.is_transition_window(size);
        self.when(c)
    }

    /// `x + y - 2xy`, which is `x xor y` on bits.
    pub fn xor(&self, x: SymbolicExpression, y: SymbolicExpression) -> (r: SymbolicExpression)
        requires
            x.wf(),
            y.wf(),
            x.degree() + y.degree() <= usize::MAX,
        ensures
            r == spec_xor(x, y),
            r.wf(),
    {
        let two = self.two();
        proof {
            lemma_xor_degree(x, y);
            lemma_op_degrees(two, x);
        }
        let s = x.clone_shallow().add(y.clone_shallow());
        let p = two.mul(x).mul(y);
        s.sub(p)
    }

    /// `xor(x, xor(y, z))`, which is the xor of three bits on bits.
    pub fn xor3(&self, x: SymbolicExpression, y: SymbolicExpression, z: SymbolicExpression) -> (r:
        SymbolicExpression)
        requires
            x.wf(),
            y.wf(),
            z.wf(),
            x.degree() + y.degree() + z.degree() <= usize::MAX,
        ensures
            r == spec_xor(x, spec_xor(y, z)),
            r.wf(),
    {
        proof {
            lemma_xor_degree(y, z);
        }
        let yz = self.xor(y, z);
        self.xor(x, yz)
    }

    /// `(1 - x) y`, which is `(not x) and y` on bits.
    pub fn andn(&self, x: SymbolicExpression, y: SymbolicExpression) -> (r: SymbolicExpression)
        requires
            x.wf(),
            y.wf(),
            x.degree() + y.degree() <= usize::MAX,
        ensures
            r == spec_andn(x, y),
            r.wf(),
    {
        let one = self.one();
        proof {
            lemma_op_degrees(one, x);
        }
        one.sub(x).mul(y)
    }

    /// Packs bits, least significant first: `bits[0] + 2 bits[1] + 4 bits[2] + ...`.
    /// The bits are not range-checked.
    pub fn pack_bits_le(&self, bits: &[SymbolicExpression]) -> (r: SymbolicExpression)
        requires
            forall|i: int| 0 <= i < bits@.len() ==> (#[trigger] bits@[i]).wf(),
        ensures
            r == spec_pack(bits@),
            r.wf(),
    {
        let two = self.two();
        let mut output = self.zero();
        let n = bits.len();
        let mut i: usize = n;
        proof {
            assert(bits@.subrange(n as int, n as int) =~= Seq::<SymbolicExpression>::empty());
        }
        while i > 0
            invariant
                i <= n,
                n == bits@.len(),
                two == const_expr(2),
                two.wf(),
                output.wf(),
                output == spec_pack(bits@.subrange(i as int, n as int)),
                forall|k: int| 0 <= k < bits@.len() ==> (#[trigger] bits@[k]).wf(),
            decreases i,
        {
            proof {
                lemma_degree_contract(output);
                let s = bits@.subrange(i - 1, n as int);
                assert(s.drop_first() =~= bits@.subrange(i as int, n as int));
                assert(s[0] == bits@[i - 1]);
            }
            output = output.mul(two.clone_shallow());
            output = output.add(bits[i - 1].clone_shallow());
            i = i - 1;
        }
        proof {
            assert(bits@.subrange(0, n as int) =~= bits@);
        }
        output
    }
}

/// `r` is the ceiling of the base-2 logarithm of `n`: the least `r` with
/// `n <= 2^r`.
pub open spec fn is_log2_ceil(n: nat, r: nat) -> bool {
    &&& n <= pow2(r)
    &&& (r == 0 || pow2((r - 1) as nat) < n)
}

/// The largest degree among `cs`, or zero when there is none.
pub open spec fn max_degree(cs: Seq<SymbolicExpression>) -> nat
    decreases cs.len(),
{
    if cs.len() == 0 {
        0
    } else {
        nat_max(max_degree(cs.drop_last()), cs.last().degree())
    }
}

/// `r < 2^r`.
proof fn lemma_below_pow2(r: nat)
    ensures
        r < pow2(r),
    decreases r,
{
    if r == 0 {
        vstd::arithmetic::power2::lemma2_to64();
    } else {
        lemma_below_pow2((r - 1) as nat);
        lemma_pow2_unfold(r);
        lemma_pow2_pos((r - 1) as nat);
    }
}

/// The ceiling of the base-2 logarithm of `n` (zero for `n <= 1`).
pub fn log2_ceil_usize(n: usize) -> (r: usize)
    ensures
        is_log2_ceil(n as nat, r as nat),
{
    let top: usize = if n == 0 { 0 } else { n - 1 };
    let mut m: usize = top;
    let mut r: usize = 0;
    proof {
        vstd::arithmetic::power2::lemma2_to64();
    }
    while m > 0
        invariant
            m as int == top as int / (pow2(r as nat) as int),
            r > 0 ==> pow2((r - 1) as nat) <= top,
        decreases m,
    {
        proof {
            lemma_pow2_pos(r as nat);
            vstd::arithmetic::div_mod::lemma_fundamental_div_mod(top as int, pow2(r as nat) as int);
            vstd::arithmetic::mul::lemma_mul_inequality(1, m as int, pow2(r as nat) as int);
            vstd::arithmetic::div_mod::lemma_mod_bound(top as int, pow2(r as nat) as int);
            assert(pow2(r as nat) <= top);
            lemma_below_pow2(r as nat);
            lemma_halve_pow(top as int, r as nat);
        }
        m = m / 2;
        r = r + 1;
    }
    proof {
        lemma_pow2_pos(r as nat);
        vstd::arithmetic::div_mod::lemma_fundamental_div_mod(top as int, pow2(r as nat) as int);
        vstd::arithmetic::div_mod::lemma_mod_bound(top as int, pow2(r as nat) as int);
        assert(top as int / (pow2(r as nat) as int) == 0);
        vstd::arithmetic::mul::lemma_mul_basics(pow2(r as nat) as int);
        assert(top < pow2(r as nat));
        if r > 0 {
            lemma_pow2_pos((r - 1) as nat);
        }
    }
    r
}

/// `v / 2^(r+1)` is `(v / 2^r) / 2`.
proof fn lemma_halve_pow(v: int, r: nat)
    requires
        v >= 0,
    ensures
        v / (pow2(r + 1) as int) == (v / (pow2(r) as int)) / 2,
{
    lemma_pow2_pos(r);
    lemma_pow2_unfold(r + 1);
    assert(pow2(r + 1) == pow2(r) * 2);
    vstd::arithmetic::div_mod::lemma_div_denominator(v, pow2(r) as int, 2);
}

/// The log-degree of the quotient for constraints of largest degree `d`:
/// `log2_ceil(max(d, 2) - 1)`.
pub fn log_quotient_degree(d: usize) -> (r: usize)
    ensures
        is_log2_ceil((nat_max(d as nat, 2) - 1) as nat, r as nat),
{
    let padded = if d >= 2 { d } else { 2 };
    log2_ceil_usize(padded - 1)
}

/// The largest degree among `constraints`, or zero when there is none.
pub fn max_constraint_degree(constraints: &[SymbolicExpression]) -> (r: usize)
    requires
        forall|k: int| 0 <= k < constraints@.len() ==> (#[trigger] constraints@[k]).wf(),
    ensures
        r as nat == max_degree(constraints@),
{
    let mut best: usize = 0;
    let mut i: usize = 0;
    proof {
        assert(constraints@.subrange(0, 0) =~= Seq::<SymbolicExpression>::empty());
    }
    while i < constraints.len()
        invariant
            i <= constraints@.len(),
            best as nat == max_degree(constraints@.subrange(0, i as int)),
            forall|k: int| 0 <= k < constraints@.len() ==> (#[trigger] constraints@[k]).wf(),
        decreases constraints@.len() - i,
    {
        let d = constraints[i].degree_multiple();
        proof {
            let s = constraints@.subrange(0, i + 1);
            assert(s.drop_last() =~= constraints@.subrange(0, i as int));
            assert(s.last() == constraints@[i as int]);
        }
        if d > best {
            best = d;
        }
        i = i + 1;
    }
    proof {
        assert(constraints@.subrange(0, constraints@.len() as int) =~= constraints@);
    }
    best
}

/// Runs `air` on a symbolic builder and returns the constraints it asserts,
/// in order.
pub fn get_symbolic_constraints<A: Air>(
    air: &A,
    preprocessed_width: usize,
    num_public_values: usize,
) -> (r: Vec<SymbolicExpression>)
    ensures
        forall|k: int| 0 <= k < r@.len() ==> (#[trigger] r@[k]).wf(),
{
    let mut builder = SymbolicAirBuilder::new(preprocessed_width, air.width(), num_public_values);
    air.eval(&mut builder);
    builder.constraints()
}

/// The largest degree among the constraints of `air`.
pub fn get_max_constraint_degree<A: Air>(
    air: &A,
    preprocessed_width: usize,
    num_public_values: usize,
) -> (r: usize)
    ensures
        exists|cs: Seq<SymbolicExpression>| r as nat == max_degree(cs),
{
    let cs = get_symbolic_constraints(air, preprocessed_width, num_public_values);
    max_constraint_degree(cs.as_slice())
}

/// The log-degree of the quotient of `air`'s constraints, their largest
/// degree padded to at least two.
pub fn get_log_quotient_degree<A: Air>(
    air: &A,
    preprocessed_width: usize,
    num_public_values: usize,
) -> (r: usize)
    ensures
        exists|d: nat| is_log2_ceil((nat_max(d, 2) - 1) as nat, r as nat),
{
    let d = get_max_constraint_degree(air, preprocessed_width, num_public_values);
    log_quotient_degree(d)
}

} // verus!
