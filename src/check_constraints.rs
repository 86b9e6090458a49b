//! Row-by-row evaluation of constraints against a concrete trace.

use vstd::prelude::*;
use p3_matrix::dense::RowMajorMatrix;
use crate::field::{BabyBear, P};
use crate::matrix::{trace_cells, trace_width, trace_height, matrix_width, matrix_height, matrix_get};
use crate::symbolic_expression::SymbolicExpression;
use crate::symbolic_builder::get_symbolic_constraints;
use crate::air::Air;
use crate::symbolic_variable::{Entry, SymbolicVariable};

verus! {

/// The variable is a cell of the two-row main window of width `w`, or one of
/// `np` public values.
pub open spec fn var_bound(v: SymbolicVariable, w: nat, np: nat) -> bool {
    match v.entry {
        Entry::Main { offset } => offset <= 1 && v.index < w,
        Entry::Public => v.index < np,
        _ => false,
    }
}

/// Every variable of `e` is bound in a main window of width `w` with `np`
/// public values.
pub open spec fn expr_bound(e: SymbolicExpression, w: nat, np: nat) -> bool
    decreases e,
{
    match e {
        SymbolicExpression::Variable(v) => var_bound(v, w, np),
        SymbolicExpression::Add { x, y, .. } => expr_bound(*x, w, np) && expr_bound(*y, w, np),
        SymbolicExpression::Sub { x, y, .. } => expr_bound(*x, w, np) && expr_bound(*y, w, np),
        SymbolicExpression::Neg { x, .. } => expr_bound(*x, w, np),
        SymbolicExpression::Mul { x, y, .. } => expr_bound(*x, w, np) && expr_bound(*y, w, np),
        _ => true,
    }
}

/// Values of the window's variables: the current row, the next row and the
/// public values (zero for anything else).
pub open spec fn row_valuation(
    local: Seq<BabyBear>,
    next: Seq<BabyBear>,
    pubs: Seq<BabyBear>,
) -> spec_fn(SymbolicVariable) -> int {
    |v: SymbolicVariable|
        match v.entry {
            Entry::Main { offset } => if offset == 0 && v.index < local.len() {
                local[v.index as int].val()
            } else if offset == 1 && v.index < next.len() {
                next[v.index as int].val()
            } else {
                0
            },
            Entry::Public => if v.index < pubs.len() {
                pubs[v.index as int].val()
            } else {
                0
            },
            _ => 0,
        }
}

/// Row `i` of a trace with the given cells and width, reduced into the field.
pub open spec fn trace_row(cells: Seq<u32>, w: nat, i: int) -> Seq<BabyBear> {
    Seq::new(w, |c: int| BabyBear { v: (cells[i * w + c] as int % (P as int)) as u32 })
}

/// The selectors of row `i` of `h`: first row, last row, transition.
pub open spec fn row_selectors(i: int, h: int) -> (int, int, int) {
    (
        if i == 0 { 1int } else { 0int },
        if i == h - 1 { 1int } else { 0int },
        if i != h - 1 { 1int } else { 0int },
    )
}

/// Value of `e` on row `i` of trace `m`, whose next row wraps around to the
/// first.
pub open spec fn value_on_row(
    e: SymbolicExpression,
    m: RowMajorMatrix<u32>,
    pubs: Seq<BabyBear>,
    i: int,
) -> int {
    let h = trace_height(m) as int;
    let w = trace_width(m);
    e.eval(
        row_valuation(
            trace_row(trace_cells(m), w, i),
            trace_row(trace_cells(m), w, (i + 1) % h),
            pubs,
        ),
        row_selectors(i, h),
    )
}

/// Every constraint vanishes on every row of rows `0..rows`.
pub open spec fn rows_hold(
    cs: Seq<SymbolicExpression>,
    m: RowMajorMatrix<u32>,
    pubs: Seq<BabyBear>,
    rows: int,
) -> bool {
    forall|i: int, k: int|
        0 <= i < rows && 0 <= k < cs.len() ==> #[trigger] value_on_row(cs[k], m, pubs, i) == 0
}

/// The element `1` if `b` holds, else `0`.
pub fn from_bool(b: bool) -> (r: BabyBear)
    ensures
        r.wf(),
        r.val() == (if b { 1int } else { 0int }),
{
    if b {
        BabyBear::one()
    } else {
        BabyBear::zero()
    }
}

/// Why a trace fails its constraints.
#[derive(Clone, Copy, Debug, PartialEq, Eq, Structural)]
pub enum CheckError {
    /// Constraint number `constraint` reads a cell outside the window or a
    /// public value that was not given.
    Unbound { constraint: usize },
    /// Constraint number `constraint` has the nonzero `value` on `row`.
    NonZero { row: usize, constraint: usize, value: BabyBear },
}

/// A failed assertion on one row of a concrete trace.
#[derive(Clone, Copy, Debug, PartialEq, Eq, Structural)]
pub enum RowFailure {
    /// A value asserted to be zero is not.
    NonZero { row: usize, value: BabyBear },
    /// Two values asserted equal differ.
    Mismatch { row: usize, left: BabyBear, right: BabyBear },
}

/// An evaluator for one row of a concrete trace: every expression collapses
/// to a field element.
pub struct DebugConstraintBuilder {
    pub row_index: usize,
    pub local: Vec<BabyBear>,
    pub next: Vec<BabyBear>,
    pub public_values: Vec<BabyBear>,
    pub is_first_row: BabyBear,
    pub is_last_row: BabyBear,
    pub is_transition: BabyBear,
}

impl DebugConstraintBuilder {
    pub open spec fn wf(&self) -> bool {
        &&& self.next@.len() == self.local@.len()
        &&& forall|i: int| 0 <= i < self.local@.len() ==> (#[trigger] self.local@[i]).wf()
        &&& forall|i: int| 0 <= i < self.next@.len() ==> (#[trigger] self.next@[i]).wf()
        &&& forall|i: int| 0 <= i < self.public_values@.len() ==> (#[trigger] self.public_values@[i]).wf()
        &&& self.is_first_row.wf()
        &&& self.is_last_row.wf()
        &&& self.is_transition.wf()
    }

    pub open spec fn valuation(&self) -> spec_fn(SymbolicVariable) -> int {
        row_valuation(self.local@, self.next@, self.public_values@)
    }

    pub open spec fn selectors(&self) -> (int, int, int) {
        (self.is_first_row.val(), self.is_last_row.val(), self.is_transition.val())
    }

    pub fn is_first_row(&self) -> (r: BabyBear)
        ensures
            r == self.is_first_row,
    {
        self.is_first_row
    }

    pub fn is_last_row(&self) -> (r: BabyBear)
        ensures
            r == self.is_last_row,
    {
        self.is_last_row
    }

    /// The transition selector; only windows of two rows are supported.
    pub fn is_transition_window(&self, size: usize) -> (r: BabyBear)
        requires
            size == 2,
        ensures
            r == self.is_transition,
    {
        self.is_transition
    }

    pub fn zero(&self) -> (r: BabyBear)
        ensures
            r.wf(),
            r.val() == 0,
    {
        BabyBear::zero()
    }

    pub fn one(&self) -> (r: BabyBear)
        ensures
            r.wf(),
            r.val() == 1,
    {
        BabyBear::one()
    }

    pub fn from_u32(&self, val: u32) -> (r: BabyBear)
        ensures
            r.wf(),
            r.val() == val as int % (P as int),
    {
        BabyBear::from_u32(val)
    }

    pub fn public_values(&self) -> (r: &[BabyBear])
        ensures
            r@ == self.public_values@,
    {
        self.public_values.as_slice()
    }

    /// Fails with this row's index unless `x` is zero.
    pub fn assert_zero(&self, x: BabyBear) -> (r: Result<(), RowFailure>)
        ensures
            r is Ok <==> x.val() == 0,
            r is Err ==> r == Err::<(), RowFailure>(RowFailure::NonZero { row: self.row_index, value: x }),
    {
        if x.is_zero() {
            Ok(())
        } else {
            Err(RowFailure::NonZero { row: self.row_index, value: x })
        }
    }

    /// Fails with this row's index and both values unless `x == y`.
    pub fn assert_eq(&self, x: BabyBear, y: BabyBear) -> (r: Result<(), RowFailure>)
        ensures
            r is Ok <==> x == y,
            r is Err ==> r == Err::<(), RowFailure>(
                RowFailure::Mismatch { row: self.row_index, left: x, right: y },
            ),
    {
        if x == y {
            Ok(())
        } else {
            Err(RowFailure::Mismatch { row: self.row_index, left: x, right: y })
        }
    }

    /// The value of a variable of the window.
    fn lookup(&self, v: SymbolicVariable) -> (r: BabyBear)
        requires
            self.wf(),
            var_bound(v, self.local@.len(), self.public_values@.len()),
        ensures
            r.wf(),
            r.val() == (self.valuation())(v),
    {
        match v.entry {
            Entry::Main { offset } => if offset == 0 {
                self.local[v.index]
            } else {
                self.next[v.index]
            },
            _ => self.public_values[v.index],
        }
    }

    /// The value of `e` on this row.
    pub fn evaluate(&self, e: &SymbolicExpression) -> (r: BabyBear)
        requires
            self.wf(),
            e.wf(),
            expr_bound(*e, self.local@.len(), self.public_values@.len()),
        ensures
            r.wf(),
            r.val() == e.eval(self.valuation(), self.selectors()),
        decreases e,
    {
        match e {
            SymbolicExpression::Variable(v) => self.lookup(*v),
            SymbolicExpression::IsFirstRow => self.is_first_row,
            SymbolicExpression::IsLastRow => self.is_last_row,
            SymbolicExpression::IsTransition => self.is_transition,
            SymbolicExpression::Constant(c) => *c,
            SymbolicExpression::Add { x, y, .. } => self.evaluate(x).add(self.evaluate(y)),
            SymbolicExpression::Sub { x, y, .. } => self.evaluate(x).sub(self.evaluate(y)),
            SymbolicExpression::Neg { x, .. } => self.evaluate(x).neg(),
            SymbolicExpression::Mul { x, y, .. } => self.evaluate(x).mul(self.evaluate(y)),
        }
    }
}

/// Whether every variable of `e` is bound in a main window of width `w` with
/// `np` public values.
pub fn is_bound(e: &SymbolicExpression, w: usize, np: usize) -> (r: bool)
    ensures
        r == expr_bound(*e, w as nat, np as nat),
    decreases e,
{
    match e {
        SymbolicExpression::Variable(v) => match v.entry {
            Entry::Main { offset } => offset <= 1 && v.index < w,
            Entry::Public => v.index < np,
            _ => false,
        },
        SymbolicExpression::Add { x, y, .. } => is_bound(x, w, np) && is_bound(y, w, np),
        SymbolicExpression::Sub { x, y, .. } => is_bound(x, w, np) && is_bound(y, w, np),
        SymbolicExpression::Neg { x, .. } => is_bound(x, w, np),
        SymbolicExpression::Mul { x, y, .. } => is_bound(x, w, np) && is_bound(y, w, np),
        _ => true,
    }
}

/// Row `i` of the trace, reduced into the field.
fn read_row(m: &RowMajorMatrix<u32>, i: usize, w: usize) -> (r: Vec<BabyBear>)
    requires
        i < trace_height(*m),
        w == trace_width(*m),
    ensures
        r@ == trace_row(trace_cells(*m), w as nat, i as int),
        forall|c: int| 0 <= c < r@.len() ==> (#[trigger] r@[c]).wf(),
{
    let mut out: Vec<BabyBear> = Vec::new();
    let mut c: usize = 0;
    while c < w
        invariant
            c <= w,
            i < trace_height(*m),
            w == trace_width(*m),
            out@.len() == c,
            forall|k: int| 0 <= k < c ==> (#[trigger] out@[k]) == trace_row(trace_cells(*m), w as nat, i as int)[k],
            forall|k: int| 0 <= k < c ==> (#[trigger] out@[k]).wf(),
        decreases w - c,
    {
        let cell = match matrix_get(m, i, c) {
            Some(v) => v,
            None => 0,
        };
        out.push(BabyBear::from_u32(cell));
        c = c + 1;
    }
    assert(out@ =~= trace_row(trace_cells(*m), w as nat, i as int));
    out
}

/// Checks a trace against a list of constraints: every constraint must read
/// only cells of the two-row main window and given public values, and must
/// vanish on every row, the row after the last being the first. Reports the
/// first unbound constraint, or else the first row, and on it the first
/// constraint, that does not vanish.
pub fn check_trace(
    constraints: &[SymbolicExpression],
    main: &RowMajorMatrix<u32>,
    public_values: &Vec<BabyBear>,
) -> (r: Result<(), CheckError>)
    requires
        forall|k: int| 0 <= k < constraints@.len() ==> (#[trigger] constraints@[k]).wf(),
        forall|k: int| 0 <= k < public_values@.len() ==> (#[trigger] public_values@[k]).wf(),
    ensures
        (r is Ok) == ((forall|k: int|
            0 <= k < constraints@.len() ==> #[trigger] expr_bound(
                constraints@[k],
                trace_width(*main),
                public_values@.len(),
            )) && rows_hold(constraints@, *main, public_values@, trace_height(*main) as int)),
        r matches Err(CheckError::Unbound { constraint }) ==> {
            &&& constraint < constraints@.len()
            &&& !expr_bound(constraints@[constraint as int], trace_width(*main), public_values@.len())
            &&& forall|k: int|
                0 <= k < constraint ==> #[trigger] expr_bound(
                    constraints@[k],
                    trace_width(*main),
                    public_values@.len(),
                )
        },
        r matches Err(CheckError::NonZero { row, constraint, value }) ==> {
            &&& forall|k: int|
                0 <= k < constraints@.len() ==> #[trigger] expr_bound(
                    constraints@[k],
                    trace_width(*main),
                    public_values@.len(),
                )
            &&& row < trace_height(*main)
            &&& constraint < constraints@.len()
            &&& rows_hold(constraints@, *main, public_values@, row as int)
            &&& forall|k: int|
                0 <= k < constraint ==> #[trigger] value_on_row(
                    constraints@[k],
                    *main,
                    public_values@,
                    row as int,
                ) == 0
            &&& value.wf()
            &&& value.val() == value_on_row(
                constraints@[constraint as int],
                *main,
                public_values@,
                row as int,
            )
            &&& value.val() != 0
        },
{
    let w = matrix_width(main);
    let h = matrix_height(main);
    let np = public_values.len();
    let n = constraints.len();
    let mut k: usize = 0;
    while k < n
        invariant
            k <= n,
            n == constraints@.len(),
            w == trace_width(*main),
            np == public_values@.len(),
            forall|j: int| 0 <= j < k ==> #[trigger] expr_bound(constraints@[j], w as nat, np as nat),
        decreases n - k,
    {
        if !is_bound(&constraints[k], w, np) {
            return Err(CheckError::Unbound { constraint: k });
        }
        k = k + 1;
    }
    let mut i: usize = 0;
    while i < h
        invariant
            i <= h,
            h == trace_height(*main),
            n == constraints@.len(),
            w == trace_width(*main),
            np == public_values@.len(),
            forall|j: int| 0 <= j < n ==> #[trigger] expr_bound(constraints@[j], w as nat, np as nat),
            forall|j: int| 0 <= j < n ==> (#[trigger] constraints@[j]).wf(),
            forall|j: int| 0 <= j < public_values@.len() ==> (#[trigger] public_values@[j]).wf(),
            rows_hold(constraints@, *main, public_values@, i as int),
        decreases h - i,
    {
        let i_next = (i + 1) % h;
        let local = read_row(main, i, w);
        let next = read_row(main, i_next, w);
        let pubs = public_values.clone();
        proof {
            assert(pubs@ =~= public_values@);
        }
        let builder = DebugConstraintBuilder {
            row_index: i,
            local,
            next,
            public_values: pubs,
            is_first_row: from_bool(i == 0),
            is_last_row: from_bool(i == h - 1),
            is_transition: from_bool(i != h - 1),
        };
        let mut k: usize = 0;
        while k < n
            invariant
                k <= n,
                i < h,
                h == trace_height(*main),
                n == constraints@.len(),
                w == trace_width(*main),
                np == public_values@.len(),
                builder.wf(),
                builder.local@.len() == w,
                builder.public_values@ == public_values@,
                builder.valuation() == row_valuation(
                    trace_row(trace_cells(*main), w as nat, i as int),
                    trace_row(trace_cells(*main), w as nat, (i as int + 1) % (h as int)),
                    public_values@,
                ),
                builder.selectors() == row_selectors(i as int, h as int),
                rows_hold(constraints@, *main, public_values@, i as int),
                forall|j: int| 0 <= j < n ==> #[trigger] expr_bound(constraints@[j], w as nat, np as nat),
                forall|j: int| 0 <= j < n ==> (#[trigger] constraints@[j]).wf(),
                forall|j: int|
                    0 <= j < k ==> #[trigger] value_on_row(
                        constraints@[j],
                        *main,
                        public_values@,
                        i as int,
                    ) == 0,
            decreases n - k,
        {
            let v = builder.evaluate(&constraints[k]);
            proof {
                assert(builder.valuation() == row_valuation(
                    trace_row(trace_cells(*main), w as nat, i as int),
                    trace_row(trace_cells(*main), w as nat, (i as int + 1) % (h as int)),
                    public_values@,
                ));
                assert(value_on_row(constraints@[k as int], *main, public_values@, i as int)
                    == constraints@[k as int].eval(builder.valuation(), builder.selectors()));
            }
            if !v.is_zero() {
                return Err(CheckError::NonZero { row: i, constraint: k, value: v });
            }
            k = k + 1;
        }
        proof {
            assert forall|a: int, b: int|
                0 <= a < i + 1 && 0 <= b < n implies #[trigger] value_on_row(
                constraints@[b],
                *main,
                public_values@,
                a,
            ) == 0 by {
                if a < i {
                    assert(rows_hold(constraints@, *main, public_values@, i as int));
                }
            }
        }
        i = i + 1;
    }
    Ok(())
}

/// Checks a concrete trace against the constraints of `air`, as `check_trace`
/// does with the constraints that `air` asserts on a symbolic builder.
pub fn check_constraints<A: Air>(
    air: &A,
    main: &RowMajorMatrix<u32>,
    public_values: &Vec<BabyBear>,
) -> (r: Result<(), CheckError>)
    requires
        forall|k: int| 0 <= k < public_values@.len() ==> (#[trigger] public_values@[k]).wf(),
    ensures
        r matches Err(CheckError::NonZero { row, value, .. }) ==> row < trace_height(*main)
            && value.val() != 0,
{
    let constraints = get_symbolic_constraints(air, 0, public_values.len());
    check_trace(constraints.as_slice(), main, public_values)
}

} // verus!
