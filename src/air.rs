//! The capabilities an AIR and its builders offer, and the filtered sub-builder.

use vstd::prelude::*;
use p3_matrix::dense::RowMajorMatrix;
use crate::field::{P, f_mul};
use crate::symbolic_builder::{SymbolicAirBuilder, VarMatrix, window_vars};
use crate::symbolic_expression::{
    SymbolicExpression, spec_sub, spec_mul, const_expr, lemma_op_degrees, lemma_eval_ops,
    lemma_eval_range, canonical,
};
use crate::symbolic_variable::SymbolicVariable;

verus! {

/// An AIR (algebraic intermediate representation).
pub trait BaseAir {
    /// The number of columns (registers) of the AIR.
    fn width(&self) -> usize;

    /// The preprocessed trace, if the AIR has one.
    fn preprocessed_trace(&self) -> Option<RowMajorMatrix<u32>> {
        None
    }
}

/// An AIR with zero or more public values.
pub trait BaseAirWithPublicValues: BaseAir {
    fn num_public_values(&self) -> usize {
        0
    }
}

/// An AIR whose constraints are written against the symbolic builder.
pub trait Air: BaseAir {
    fn eval(&self, builder: &mut SymbolicAirBuilder);
}

/// A builder that offers public values.
pub trait AirBuilderWithPublicValues {
    fn public_values(&self) -> &[SymbolicVariable];
}

/// A builder that offers a preprocessed trace.
pub trait PairBuilder {
    fn preprocessed(&self) -> VarMatrix;
}

impl AirBuilderWithPublicValues for SymbolicAirBuilder {
    fn public_values(&self) -> &[SymbolicVariable] {
        SymbolicAirBuilder::public_values(self)
    }
}

impl PairBuilder for SymbolicAirBuilder {
    fn preprocessed(&self) -> VarMatrix {
        SymbolicAirBuilder::preprocessed(self)
    }
}

/// A sub-builder that multiplies every constraint by `condition` before it
/// reaches the inner builder.
pub struct FilteredAirBuilder<'a> {
    pub inner: &'a mut SymbolicAirBuilder,
    pub condition: SymbolicExpression,
}

impl<'a> FilteredAirBuilder<'a> {
    pub(crate) fn new(inner: &'a mut SymbolicAirBuilder, condition: SymbolicExpression) -> (r:
        FilteredAirBuilder<'a>)
        ensures
            *r.inner == *old(inner),
            *final(r.inner) == *final(inner),
            r.condition == condition,
    {
        FilteredAirBuilder { inner, condition }
    }

    pub fn condition(&self) -> (r: SymbolicExpression)
        ensures
            r == self.condition,
    {
        self.condition.clone_shallow()
    }

    pub fn main(&self) -> (r: VarMatrix)
        ensures
            r.width == old(self.inner).main_width(),
            r.values@ == window_vars(true, old(self.inner).main_width()),
    {
        self.inner.main()
    }

    pub fn is_first_row(&self) -> (r: SymbolicExpression)
        ensures
            r == SymbolicExpression::IsFirstRow,
    {
        self.inner.is_first_row()
    }

    pub fn is_last_row(&self) -> (r: SymbolicExpression)
        ensures
            r == SymbolicExpression::IsLastRow,
    {
        self.inner.is_last_row()
    }

    pub fn is_transition_window(&self, size: usize) -> (r: SymbolicExpression)
        requires
            size == 2,
        ensures
            r == SymbolicExpression::IsTransition,
    {
        self.inner.is_transition_window(size)
    }

    pub fn zero(&self) -> (r: SymbolicExpression)
        ensures
            r == const_expr(0),
            r.wf(),
    {
        self.inner.zero()
    }

    pub fn one(&self) -> (r: SymbolicExpression)
        ensures
            r == const_expr(1),
            r.wf(),
    {
        self.inner.one()
    }

    pub fn two(&self) -> (r: SymbolicExpression)
        ensures
            r == const_expr(2),
            r.wf(),
    {
        self.inner.two()
    }

    pub fn from_u32(&self, val: u32) -> (r: SymbolicExpression)
        ensures
            r == const_expr(val as int % (P as int)),
            r.wf(),
    {
        self.inner.from_u32(val)
    }

    /// Records `condition * x = 0` in the inner builder.
    pub fn assert_zero(&mut self, x: SymbolicExpression)
        requires
            old(self).condition.wf(),
            x.wf(),
            old(self).condition.degree() + x.degree() <= usize::MAX,
        ensures
            final(self).condition == old(self).condition,
            *final(final(self).inner) == *final(old(self).inner),
            final(self).inner.emitted() == old(self).inner.emitted().push(
                spec_mul(old(self).condition, x),
            ),
            final(self).inner.same_shape(*old(self).inner),
    {
        let c = self.condition();
        let e = c.mul(x);
        self.inner.assert_zero(e);
    }

    /// Records `condition * (x - y) = 0` in the inner builder.
    pub fn assert_eq(&mut self, x: SymbolicExpression, y: SymbolicExpression)
        requires
            old(self).condition.wf(),
            x.wf(),
            y.wf(),
            old(self).condition.degree() + x.degree() + y.degree() <= usize::MAX,
        ensures
            final(self).condition == old(self).condition,
            *final(final(self).inner) == *final(old(self).inner),
            final(self).inner.emitted() == old(self).inner.emitted().push(
                spec_mul(old(self).condition, spec_sub(x, y)),
            ),
            final(self).inner.same_shape(*old(self).inner),
    {
        proof {
            lemma_op_degrees(x, y);
        }
        self.assert_zero(x.sub(y));
    }

    /// Records `condition * (x - 1) = 0` in the inner builder.
    pub fn assert_one(&mut self, x: SymbolicExpression)
        requires
            old(self).condition.wf(),
            x.wf(),
            old(self).condition.degree() + x.degree() <= usize::MAX,
        ensures
            final(self).condition == old(self).condition,
            *final(final(self).inner) == *final(old(self).inner),
            final(self).inner.emitted() == old(self).inner.emitted().push(
                spec_mul(old(self).condition, spec_sub(x, const_expr(1))),
            ),
            final(self).inner.same_shape(*old(self).inner),
    {
        let one = self.one();
        proof {
            lemma_op_degrees(x, one);
        }
        self.assert_zero(x.sub(one));
    }

    /// A nested sub-builder whose selector is `self.condition * condition`.
    pub fn when(&mut self, condition: SymbolicExpression) -> (r: FilteredAirBuilder<'_>)
        requires
            old(self).condition.wf(),
            condition.wf(),
            old(self).condition.degree() + condition.degree() <= usize::MAX,
        ensures
            *r.inner == *old(self).inner,
            r.condition == spec_mul(old(self).condition, condition),
            final(self).condition == old(self).condition,
            *final(self).inner == *final(r.inner),
            *final(final(self).inner) == *final(old(self).inner),
    {
        let c = self.condition().mul(condition);
        FilteredAirBuilder { inner: &mut *self.inner, condition: c }
    }
}

/// Nested filters multiply: a constraint `e` recorded under `c1` and then
/// `c2` evaluates to `c1 * c2 * e`, so it vanishes wherever either selector
/// does, and equals `e` where both are one.
pub proof fn lemma_filter_value(
    c1: SymbolicExpression,
    c2: SymbolicExpression,
    e: SymbolicExpression,
    var: spec_fn(SymbolicVariable) -> int,
    sel: (int, int, int),
)
    requires
        c1.wf(),
        c2.wf(),
        e.wf(),
        c1.degree() + c2.degree() + e.degree() <= usize::MAX,
        canonical(var, sel),
    ensures
        spec_mul(spec_mul(c1, c2), e).eval(var, sel) == f_mul(
            f_mul(c1.eval(var, sel), c2.eval(var, sel)),
            e.eval(var, sel),
        ),
        c1.eval(var, sel) == 0 || c2.eval(var, sel) == 0 ==> spec_mul(spec_mul(c1, c2), e).eval(
            var,
            sel,
        ) == 0,
        c1.eval(var, sel) == 1 && c2.eval(var, sel) == 1 ==> spec_mul(spec_mul(c1, c2), e).eval(
            var,
            sel,
        ) == e.eval(var, sel),
{
    lemma_op_degrees(c1, c2);
    lemma_eval_ops(c1, c2, var, sel);
    lemma_eval_ops(spec_mul(c1, c2), e, var, sel);
    lemma_eval_range(e, var, sel);
    vstd::arithmetic::div_mod::lemma_small_mod(e.eval(var, sel) as nat, P as nat);
    assert(f_mul(0, c2.eval(var, sel)) == 0);
    assert(f_mul(c1.eval(var, sel), 0) == 0);
    assert(f_mul(0, e.eval(var, sel)) == 0);
    assert(f_mul(1, 1) == 1);
    assert(f_mul(1, e.eval(var, sel)) == e.eval(var, sel));
}

} // verus!
