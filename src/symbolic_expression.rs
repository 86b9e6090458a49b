//! Expression DAG over symbolic variables, simplified as it is built.

use std::sync::Arc;
use vstd::prelude::*;
use crate::field::{BabyBear, f_add, f_sub, f_mul, f_neg, P};
use crate::symbolic_variable::{SymbolicVariable, entry_degree};

verus! {

/// Relies on `Arc::clone`: the new pointer shares the allocation, so it points
/// to the same value.
#[verifier::external_body]
fn share(a: &Arc<SymbolicExpression>) -> (r: Arc<SymbolicExpression>)
    ensures
        r == *a,
{
    Arc::clone(a)
}

/// An expression over `SymbolicVariable`s. Children are shared.
#[derive(Clone, Debug, PartialEq)]
pub enum SymbolicExpression {
    Variable(SymbolicVariable),
    IsFirstRow,
    IsLastRow,
    IsTransition,
    Constant(BabyBear),
    Add { x: Arc<SymbolicExpression>, y: Arc<SymbolicExpression>, degree_multiple: usize },
    Sub { x: Arc<SymbolicExpression>, y: Arc<SymbolicExpression>, degree_multiple: usize },
    Neg { x: Arc<SymbolicExpression>, degree_multiple: usize },
    Mul { x: Arc<SymbolicExpression>, y: Arc<SymbolicExpression>, degree_multiple: usize },
}

impl SymbolicExpression {
    /// The degree in the trace length, recomputed from the structure.
    pub open spec fn degree(self) -> nat
        decreases self,
    {
        match self {
            SymbolicExpression::Variable(v) => entry_degree(v.entry),
            SymbolicExpression::IsFirstRow => 1,
            SymbolicExpression::IsLastRow => 1,
            SymbolicExpression::IsTransition => 0,
            SymbolicExpression::Constant(_) => 0,
            SymbolicExpression::Add { x, y, .. } => nat_max(x.degree(), y.degree()),
            SymbolicExpression::Sub { x, y, .. } => nat_max(x.degree(), y.degree()),
            SymbolicExpression::Neg { x, .. } => x.degree(),
            SymbolicExpression::Mul { x, y, .. } => x.degree() + y.degree(),
        }
    }

    /// The degree that the node carries: the stored field on inner nodes.
    pub open spec fn stored_degree(self) -> nat {
        match self {
            SymbolicExpression::Add { degree_multiple, .. } => degree_multiple as nat,
            SymbolicExpression::Sub { degree_multiple, .. } => degree_multiple as nat,
            SymbolicExpression::Neg { degree_multiple, .. } => degree_multiple as nat,
            SymbolicExpression::Mul { degree_multiple, .. } => degree_multiple as nat,
            _ => self.degree(),
        }
    }

    /// Every constant is canonical and every stored degree equals the
    /// recomputed one.
    pub open spec fn wf(self) -> bool
        decreases self,
    {
        match self {
            SymbolicExpression::Constant(c) => c.wf(),
            SymbolicExpression::Add { x, y, degree_multiple } => x.wf() && y.wf()
                && degree_multiple as nat == nat_max(x.degree(), y.degree()),
            SymbolicExpression::Sub { x, y, degree_multiple } => x.wf() && y.wf()
                && degree_multiple as nat == nat_max(x.degree(), y.degree()),
            SymbolicExpression::Neg { x, degree_multiple } => x.wf() && degree_multiple as nat
                == x.degree(),
            SymbolicExpression::Mul { x, y, degree_multiple } => x.wf() && y.wf()
                && degree_multiple as nat == x.degree() + y.degree(),
            _ => true,
        }
    }

    /// The expression is the constant `v`.
    pub open spec fn is_const(self, v: int) -> bool {
        self matches SymbolicExpression::Constant(c) && c.val() == v
    }

    /// The value of a constant expression (zero for any other).
    pub open spec fn const_val(self) -> int {
        match self {
            SymbolicExpression::Constant(c) => c.val(),
            _ => 0,
        }
    }

    /// Value of the expression, given a value for each variable and for the
    /// three row selectors (first row, last row, transition).
    pub open spec fn eval(self, var: spec_fn(SymbolicVariable) -> int, sel: (int, int, int)) -> int
        decreases self,
    {
        match self {
            SymbolicExpression::Variable(v) => var(v),
            SymbolicExpression::IsFirstRow => sel.0,
            SymbolicExpression::IsLastRow => sel.1,
            SymbolicExpression::IsTransition => sel.2,
            SymbolicExpression::Constant(c) => c.val(),
            SymbolicExpression::Add { x, y, .. } => f_add(x.eval(var, sel), y.eval(var, sel)),
            SymbolicExpression::Sub { x, y, .. } => f_sub(x.eval(var, sel), y.eval(var, sel)),
            SymbolicExpression::Neg { x, .. } => f_neg(x.eval(var, sel)),
            SymbolicExpression::Mul { x, y, .. } => f_mul(x.eval(var, sel), y.eval(var, sel)),
        }
    }
}

pub open spec fn nat_max(a: nat, b: nat) -> nat {
    if a >= b {
        a
    } else {
        b
    }
}

/// The constant expression with residue `v`.
pub open spec fn const_expr(v: int) -> SymbolicExpression {
    SymbolicExpression::Constant(BabyBear { v: v as u32 })
}

/// Sum of two expressions, with the identity and folding rules applied.
pub open spec fn spec_add(x: SymbolicExpression, y: SymbolicExpression) -> SymbolicExpression {
    if x.is_const(0) {
        y
    } else if y.is_const(0) {
        x
    } else if x is Constant && y is Constant {
        const_expr(f_add(x.const_val(), y.const_val()))
    } else {
        SymbolicExpression::Add {
            x: Arc::new(x),
            y: Arc::new(y),
            degree_multiple: nat_max(x.degree(), y.degree()) as usize,
        }
    }
}

/// Difference of two expressions; only a zero on the right is dropped.
pub open spec fn spec_sub(x: SymbolicExpression, y: SymbolicExpression) -> SymbolicExpression {
    if y.is_const(0) {
        x
    } else if x is Constant && y is Constant {
        const_expr(f_sub(x.const_val(), y.const_val()))
    } else {
        SymbolicExpression::Sub {
            x: Arc::new(x),
            y: Arc::new(y),
            degree_multiple: nat_max(x.degree(), y.degree()) as usize,
        }
    }
}

/// Negation; zero stays zero and constants fold.
pub open spec fn spec_neg(x: SymbolicExpression) -> SymbolicExpression {
    if x.is_const(0) {
        x
    } else if x is Constant {
        const_expr(f_sub(0, x.const_val()))
    } else {
        SymbolicExpression::Neg { x: Arc::new(x), degree_multiple: x.degree() as usize }
    }
}

/// Product of two expressions; a factor one is dropped and a factor zero
/// gives zero.
pub open spec fn spec_mul(x: SymbolicExpression, y: SymbolicExpression) -> SymbolicExpression {
    if x.is_const(1) {
        y
    } else if x.is_const(0) {
        const_expr(0)
    } else if y.is_const(1) {
        x
    } else if y.is_const(0) {
        const_expr(0)
    } else if x is Constant && y is Constant {
        const_expr(f_mul(x.const_val(), y.const_val()))
    } else {
        SymbolicExpression::Mul {
            x: Arc::new(x),
            y: Arc::new(y),
            degree_multiple: (x.degree() + y.degree()) as usize,
        }
    }
}

/// The stored degree of a well-formed expression is its recomputed degree,
/// and so fits in a `usize`.
pub proof fn lemma_degree_contract(e: SymbolicExpression)
    requires
        e.wf(),
    ensures
        e.stored_degree() == e.degree(),
        e.degree() <= usize::MAX,
{
}

/// Degrees of the simplified operations: a sum or difference has at most the
/// larger degree of its operands, a product at most their sum, a negation at
/// most the degree of its operand; all keep well-formedness.
pub proof fn lemma_op_degrees(x: SymbolicExpression, y: SymbolicExpression)
    requires
        x.wf(),
        y.wf(),
    ensures
        spec_add(x, y).wf(),
        spec_sub(x, y).wf(),
        spec_neg(x).wf(),
        spec_add(x, y).degree() <= nat_max(x.degree(), y.degree()),
        spec_sub(x, y).degree() <= nat_max(x.degree(), y.degree()),
        spec_neg(x).degree() <= x.degree(),
        x.degree() + y.degree() <= usize::MAX ==> spec_mul(x, y).wf() && spec_mul(x, y).degree()
            <= x.degree() + y.degree(),
{
}

impl SymbolicExpression {
    /// The degree in the trace length, read from the node.
    pub fn degree_multiple(&self) -> (r: usize)
        ensures
            r as nat == self.stored_degree(),
            self.wf() ==> r as nat == self.degree(),
    {
        match self {
            SymbolicExpression::Variable(v) => v.degree_multiple(),
            SymbolicExpression::IsFirstRow => 1,
            SymbolicExpression::IsLastRow => 1,
            SymbolicExpression::IsTransition => 0,
            SymbolicExpression::Constant(_) => 0,
            SymbolicExpression::Add { degree_multiple, .. } => *degree_multiple,
            SymbolicExpression::Sub { degree_multiple, .. } => *degree_multiple,
            SymbolicExpression::Neg { degree_multiple, .. } => *degree_multiple,
            SymbolicExpression::Mul { degree_multiple, .. } => *degree_multiple,
        }
    }

    pub fn zero() -> (r: SymbolicExpression)
        ensures
            r == const_expr(0),
            r.wf(),
    {
        SymbolicExpression::Constant(BabyBear::zero())
    }

    pub fn one() -> (r: SymbolicExpression)
        ensures
            r == const_expr(1),
            r.wf(),
    {
        SymbolicExpression::Constant(BabyBear::one())
    }

    /// The constant `val mod P`.
    pub fn from_u32(val: u32) -> (r: SymbolicExpression)
        ensures
            r == const_expr(val as int % (P as int)),
            r.wf(),
    {
        SymbolicExpression::Constant(BabyBear::from_u32(val))
    }

    /// A copy that shares the children of `self`.
    pub fn clone_shallow(&self) -> (r: SymbolicExpression)
        ensures
            r == *self,
    {
        match self {
            SymbolicExpression::Variable(v) => SymbolicExpression::Variable(*v),
            SymbolicExpression::IsFirstRow => SymbolicExpression::IsFirstRow,
            SymbolicExpression::IsLastRow => SymbolicExpression::IsLastRow,
            SymbolicExpression::IsTransition => SymbolicExpression::IsTransition,
            SymbolicExpression::Constant(c) => SymbolicExpression::Constant(*c),
            SymbolicExpression::Add { x, y, degree_multiple } => SymbolicExpression::Add {
                x: share(x),
                y: share(y),
                degree_multiple: *degree_multiple,
            },
            SymbolicExpression::Sub { x, y, degree_multiple } => SymbolicExpression::Sub {
                x: share(x),
                y: share(y),
                degree_multiple: *degree_multiple,
            },
            SymbolicExpression::Neg { x, degree_multiple } => SymbolicExpression::Neg {
                x: share(x),
                degree_multiple: *degree_multiple,
            },
            SymbolicExpression::Mul { x, y, degree_multiple } => SymbolicExpression::Mul {
                x: share(x),
                y: share(y),
                degree_multiple: *degree_multiple,
            },
        }
    }

    /// The constant value of `self`, if it is a constant.
    fn as_constant(&self) -> (r: Option<BabyBear>)
        ensures
            r matches Some(c) ==> *self == SymbolicExpression::Constant(c),
            r is None ==> !(*self is Constant),
    {
        match self {
            SymbolicExpression::Constant(c) => Some(*c),
            _ => None,
        }
    }

    pub fn add(self, rhs: SymbolicExpression) -> (r: SymbolicExpression)
        requires
            self.wf(),
            rhs.wf(),
        ensures
            r == spec_add(self, rhs),
            r.wf(),
    {
        let a = self.as_constant();
        let b = rhs.as_constant();
        if let Some(c) = a {
            if c.is_zero() {
                return rhs;
            }
        }
        if let Some(c) = b {
            if c.is_zero() {
                return self;
            }
        }
        if let (Some(ca), Some(cb)) = (a, b) {
            return SymbolicExpression::Constant(ca.add(cb));
        }
        let dx = self.degree_multiple();
        let dy = rhs.degree_multiple();
        let d = if dx >= dy { dx } else { dy };
        SymbolicExpression::Add { x: Arc::new(self), y: Arc::new(rhs), degree_multiple: d }
    }

    pub fn sub(self, rhs: SymbolicExpression) -> (r: SymbolicExpression)
        requires
            self.wf(),
            rhs.wf(),
        ensures
            r == spec_sub(self, rhs),
            r.wf(),
    {
        let a = self.as_constant();
        let b = rhs.as_constant();
        if let Some(c) = b {
            if c.is_zero() {
                return self;
            }
        }
        if let (Some(ca), Some(cb)) = (a, b) {
            return SymbolicExpression::Constant(ca.sub(cb));
        }
        let dx = self.degree_multiple();
        let dy = rhs.degree_multiple();
        let d = if dx >= dy { dx } else { dy };
        SymbolicExpression::Sub { x: Arc::new(self), y: Arc::new(rhs), degree_multiple: d }
    }

    pub fn neg(self) -> (r: SymbolicExpression)
        requires
            self.wf(),
        ensures
            r == spec_neg(self),
            r.wf(),
    {
        if let Some(c) = self.as_constant() {
            if c.is_zero() {
                return self;
            }
            return SymbolicExpression::Constant(BabyBear::zero().sub(c));
        }
        let d = self.degree_multiple();
        SymbolicExpression::Neg { x: Arc::new(self), degree_multiple: d }
    }

    pub fn mul(self, rhs: SymbolicExpression) -> (r: SymbolicExpression)
        requires
            self.wf(),
            rhs.wf(),
            self.degree() + rhs.degree() <= usize::MAX,
        ensures
            r == spec_mul(self, rhs),
            r.wf(),
    {
        let a = self.as_constant();
        let b = rhs.as_constant();
        if let Some(c) = a {
            if c.is_one() {
                return rhs;
            }
            if c.is_zero() {
                return SymbolicExpression::zero();
            }
        }
        if let Some(c) = b {
            if c.is_one() {
                return self;
            }
            if c.is_zero() {
                return SymbolicExpression::zero();
            }
        }
        if let (Some(ca), Some(cb)) = (a, b) {
            return SymbolicExpression::Constant(ca.mul(cb));
        }
        let dx = self.degree_multiple();
        let dy = rhs.degree_multiple();
        SymbolicExpression::Mul { x: Arc::new(self), y: Arc::new(rhs), degree_multiple: dx + dy }
    }
}

/// Constant folding: the sum, difference, product and negation of constants
/// are the constants of the field sum, difference, product and negation.
pub proof fn lemma_constant_folding(a: BabyBear, b: BabyBear)
    requires
        a.wf(),
        b.wf(),
    ensures
        spec_add(SymbolicExpression::Constant(a), SymbolicExpression::Constant(b)) == const_expr(
            f_add(a.val(), b.val()),
        ),
        spec_sub(SymbolicExpression::Constant(a), SymbolicExpression::Constant(b)) == const_expr(
            f_sub(a.val(), b.val()),
        ),
        spec_mul(SymbolicExpression::Constant(a), SymbolicExpression::Constant(b)) == const_expr(
            f_mul(a.val(), b.val()),
        ),
        spec_neg(SymbolicExpression::Constant(a)) == const_expr(f_neg(a.val())),
{
    assert(f_add(0, b.val()) == b.val()) by {
        vstd::arithmetic::div_mod::lemma_small_mod(b.val() as nat, P as nat);
    }
    assert(f_add(a.val(), 0) == a.val()) by {
        vstd::arithmetic::div_mod::lemma_small_mod(a.val() as nat, P as nat);
    }
    assert(f_sub(a.val(), 0) == a.val()) by {
        vstd::arithmetic::div_mod::lemma_small_mod(a.val() as nat, P as nat);
    }
    assert(f_mul(1, b.val()) == b.val()) by {
        vstd::arithmetic::div_mod::lemma_small_mod(b.val() as nat, P as nat);
    }
    assert(f_mul(a.val(), 1) == a.val()) by {
        vstd::arithmetic::div_mod::lemma_small_mod(a.val() as nat, P as nat);
    }
    assert(f_mul(0, b.val()) == 0);
    assert(f_mul(a.val(), 0) == 0);
    assert(f_neg(0) == 0);
}

/// Identities: `e + 0`, `0 + e`, `e - 0`, `e * 1` and `1 * e` are `e`;
/// `e * 0` and `0 * e` are `0`; `-0` is `0`.
pub proof fn lemma_identities(e: SymbolicExpression)
    requires
        e.wf(),
    ensures
        spec_add(e, const_expr(0)) == e,
        spec_add(const_expr(0), e) == e,
        spec_sub(e, const_expr(0)) == e,
        spec_mul(e, const_expr(1)) == e,
        spec_mul(const_expr(1), e) == e,
        spec_mul(e, const_expr(0)) == const_expr(0),
        spec_mul(const_expr(0), e) == const_expr(0),
        spec_neg(const_expr(0)) == const_expr(0),
{
}

/// The valuation gives every variable and selector a canonical residue.
pub open spec fn canonical(var: spec_fn(SymbolicVariable) -> int, sel: (int, int, int)) -> bool {
    &&& forall|v: SymbolicVariable| 0 <= #[trigger] var(v) < P
    &&& 0 <= sel.0 < P
    &&& 0 <= sel.1 < P
    &&& 0 <= sel.2 < P
}

/// A well-formed expression evaluates to a canonical residue.
pub proof fn lemma_eval_range(
    e: SymbolicExpression,
    var: spec_fn(SymbolicVariable) -> int,
    sel: (int, int, int),
)
    requires
        e.wf(),
        canonical(var, sel),
    ensures
        0 <= e.eval(var, sel) < P,
{
    match e {
        SymbolicExpression::Variable(v) => {
            assert(0 <= var(v) < P);
        },
        _ => {},
    }
}

/// Simplification keeps meaning: the simplified sum, difference, product and
/// negation evaluate to the field sum, difference, product and negation of
/// their operands' values.
pub proof fn lemma_eval_ops(
    x: SymbolicExpression,
    y: SymbolicExpression,
    var: spec_fn(SymbolicVariable) -> int,
    sel: (int, int, int),
)
    requires
        x.wf(),
        y.wf(),
        canonical(var, sel),
    ensures
        spec_add(x, y).eval(var, sel) == f_add(x.eval(var, sel), y.eval(var, sel)),
        spec_sub(x, y).eval(var, sel) == f_sub(x.eval(var, sel), y.eval(var, sel)),
        spec_mul(x, y).eval(var, sel) == f_mul(x.eval(var, sel), y.eval(var, sel)),
        spec_neg(x).eval(var, sel) == f_neg(x.eval(var, sel)),
{
    let ex = x.eval(var, sel);
    let ey = y.eval(var, sel);
    lemma_eval_range(x, var, sel);
    lemma_eval_range(y, var, sel);
    vstd::arithmetic::div_mod::lemma_small_mod(ex as nat, P as nat);
    vstd::arithmetic::div_mod::lemma_small_mod(ey as nat, P as nat);
    assert(f_add(0, ey) == ey);
    assert(f_add(ex, 0) == ex);
    assert(f_sub(ex, 0) == ex);
    assert(f_mul(1, ey) == ey);
    assert(f_mul(ex, 1) == ex);
    assert(f_mul(0, ey) == 0);
    assert(f_mul(ex, 0) == 0);
    assert(f_neg(0) == 0);
    assert(0 <= f_add(ex, ey) < P);
    assert(0 <= f_sub(ex, ey) < P);
    assert(0 <= f_mul(ex, ey) < P);
    assert(0 <= f_sub(0, ex) < P);
}

impl From<BabyBear> for SymbolicExpression {
    fn from(value: BabyBear) -> (r: SymbolicExpression) {
        SymbolicExpression::Constant(value)
    }
}

impl vstd::std_specs::convert::FromSpecImpl<BabyBear> for SymbolicExpression {
    open spec fn obeys_from_spec() -> bool {
        true
    }

    open spec fn from_spec(v: BabyBear) -> SymbolicExpression {
        SymbolicExpression::Constant(v)
    }
}

impl From<SymbolicVariable> for SymbolicExpression {
    fn from(value: SymbolicVariable) -> (r: SymbolicExpression) {
        SymbolicExpression::Variable(value)
    }
}

impl vstd::std_specs::convert::FromSpecImpl<SymbolicVariable> for SymbolicExpression {
    open spec fn obeys_from_spec() -> bool {
        true
    }

    open spec fn from_spec(v: SymbolicVariable) -> SymbolicExpression {
        SymbolicExpression::Variable(v)
    }
}

impl Default for SymbolicExpression {
    fn default() -> (r: SymbolicExpression)
        ensures
            r == const_expr(0),
    {
        SymbolicExpression::zero()
    }
}

/// The simplified sum of `s`, folded from the left starting at zero.
pub open spec fn spec_sum(s: Seq<SymbolicExpression>) -> SymbolicExpression
    decreases s.len(),
{
    if s.len() == 0 {
        const_expr(0)
    } else {
        spec_add(spec_sum(s.drop_last()), s.last())
    }
}

/// The simplified product of `s`, folded from the left starting at one.
pub open spec fn spec_product(s: Seq<SymbolicExpression>) -> SymbolicExpression
    decreases s.len(),
{
    if s.len() == 0 {
        const_expr(1)
    } else {
        spec_mul(spec_product(s.drop_last()), s.last())
    }
}

/// The sum of the degrees in `s`.
pub open spec fn degree_sum(s: Seq<SymbolicExpression>) -> nat
    decreases s.len(),
{
    if s.len() == 0 {
        0
    } else {
        degree_sum(s.drop_last()) + s.last().degree()
    }
}

impl SymbolicExpression {
    /// `self = self + rhs`.
    pub fn add_assign(&mut self, rhs: SymbolicExpression)
        requires
            old(self).wf(),
            rhs.wf(),
        ensures
            *final(self) == spec_add(*old(self), rhs),
            final(self).wf(),
    {
        *self = self.clone_shallow().add(rhs);
    }

    /// `self = self - rhs`.
    pub fn sub_assign(&mut self, rhs: SymbolicExpression)
        requires
            old(self).wf(),
            rhs.wf(),
        ensures
            *final(self) == spec_sub(*old(self), rhs),
            final(self).wf(),
    {
        *self = self.clone_shallow().sub(rhs);
    }

    /// `self = self * rhs`.
    pub fn mul_assign(&mut self, rhs: SymbolicExpression)
        requires
            old(self).wf(),
            rhs.wf(),
            old(self).degree() + rhs.degree() <= usize::MAX,
        ensures
            *final(self) == spec_mul(*old(self), rhs),
            final(self).wf(),
    {
        *self = self.clone_shallow().mul(rhs);
    }

    /// The sum of `terms`, folded from the left starting at zero.
    pub fn sum(terms: Vec<SymbolicExpression>) -> (r: SymbolicExpression)
        requires
            forall|i: int| 0 <= i < terms@.len() ==> (#[trigger] terms@[i]).wf(),
        ensures
            r == spec_sum(terms@),
            r.wf(),
    {
        let mut acc = SymbolicExpression::zero();
        let mut i: usize = 0;
        proof {
            assert(terms@.subrange(0, 0) =~= Seq::<SymbolicExpression>::empty());
        }
        while i < terms.len()
            invariant
                i <= terms@.len(),
                acc.wf(),
                acc == spec_sum(terms@.subrange(0, i as int)),
                forall|k: int| 0 <= k < terms@.len() ==> (#[trigger] terms@[k]).wf(),
            decreases terms@.len() - i,
        {
            proof {
                let s = terms@.subrange(0, i + 1);
                assert(s.drop_last() =~= terms@.subrange(0, i as int));
            }
            acc = acc.add(terms[i].clone_shallow());
            i = i + 1;
        }
        proof {
            assert(terms@.subrange(0, terms@.len() as int) =~= terms@);
        }
        acc
    }

    /// The product of `factors`, folded from the left starting at one.
    pub fn product(factors: Vec<SymbolicExpression>) -> (r: SymbolicExpression)
        requires
            forall|i: int| 0 <= i < factors@.len() ==> (#[trigger] factors@[i]).wf(),
            degree_sum(factors@) <= usize::MAX,
        ensures
            r == spec_product(factors@),
            r.wf(),
    {
        let mut acc = SymbolicExpression::one();
        let mut i: usize = 0;
        proof {
            assert(factors@.subrange(0, 0) =~= Seq::<SymbolicExpression>::empty());
        }
        while i < factors.len()
            invariant
                i <= factors@.len(),
                acc.wf(),
                acc == spec_product(factors@.subrange(0, i as int)),
                acc.degree() <= degree_sum(factors@.subrange(0, i as int)),
                degree_sum(factors@) <= usize::MAX,
                forall|k: int| 0 <= k < factors@.len() ==> (#[trigger] factors@[k]).wf(),
            decreases factors@.len() - i,
        {
            proof {
                let s = factors@.subrange(0, i + 1);
                assert(s.drop_last() =~= factors@.subrange(0, i as int));
                lemma_degree_sum_prefix(factors@, i as int + 1);
                lemma_op_degrees(acc, factors@[i as int]);
            }
            acc = acc.mul(factors[i].clone_shallow());
            i = i + 1;
        }
        proof {
            assert(factors@.subrange(0, factors@.len() as int) =~= factors@);
        }
        acc
    }
}

/// The degree sum of a prefix is at most that of the whole sequence.
proof fn lemma_degree_sum_prefix(s: Seq<SymbolicExpression>, n: int)
    requires
        0 <= n <= s.len(),
    ensures
        degree_sum(s.subrange(0, n)) <= degree_sum(s),
    decreases s.len() - n,
{
    if n < s.len() {
        lemma_degree_sum_prefix(s, n + 1);
        assert(s.subrange(0, n + 1).drop_last() =~= s.subrange(0, n));
    } else {
        assert(s.subrange(0, n) =~= s);
    }
}

} // verus!
