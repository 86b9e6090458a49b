//! Affine combinations of preprocessed and main columns.

use vstd::prelude::*;
use crate::field::{BabyBear, f_add, f_mul};

verus! {

/// A column of a PAIR: a preprocessed column or a main trace column.
#[derive(Clone, Copy, Debug, PartialEq, Eq, Structural)]
pub enum PairCol {
    Preprocessed(usize),
    Main(usize),
}

/// The column reads a row of the given lengths inside its bounds.
pub open spec fn col_in(col: PairCol, np: nat, nm: nat) -> bool {
    match col {
        PairCol::Preprocessed(i) => i < np,
        PairCol::Main(i) => i < nm,
    }
}

/// The entry of `col` in the given rows.
pub open spec fn col_value<T>(col: PairCol, preprocessed: Seq<T>, main: Seq<T>) -> T {
    match col {
        PairCol::Preprocessed(i) => preprocessed[i as int],
        PairCol::Main(i) => main[i as int],
    }
}

impl PairCol {
    /// The entry of this column in the given rows.
    pub fn get<T: Copy>(&self, preprocessed: &[T], main: &[T]) -> (r: T)
        requires
            col_in(*self, preprocessed@.len(), main@.len()),
        ensures
            r == col_value(*self, preprocessed@, main@),
    {
        match self {
            PairCol::Preprocessed(i) => preprocessed[*i],
            PairCol::Main(i) => main[*i],
        }
    }
}

/// `c + sum w_i col_i(rows)`, evaluated left to right.
pub open spec fn affine_value(
    ws: Seq<(PairCol, BabyBear)>,
    c: BabyBear,
    preprocessed: Seq<BabyBear>,
    main: Seq<BabyBear>,
) -> int
    decreases ws.len(),
{
    if ws.len() == 0 {
        c.val()
    } else {
        f_add(
            affine_value(ws.drop_last(), c, preprocessed, main),
            f_mul(col_value(ws.last().0, preprocessed, main).val(), ws.last().1.val()),
        )
    }
}

/// Pairs each index with the same kind of column and its weight.
pub open spec fn tag_columns(ws: Seq<(usize, BabyBear)>, main: bool) -> Seq<(PairCol, BabyBear)> {
    Seq::new(
        ws.len(),
        |i: int|
            (
                if main {
                    PairCol::Main(ws[i].0)
                } else {
                    PairCol::Preprocessed(ws[i].0)
                },
                ws[i].1,
            ),
    )
}

/// Gives each column weight one.
pub open spec fn unit_weights(cols: Seq<usize>) -> Seq<(usize, BabyBear)> {
    Seq::new(cols.len(), |i: int| (cols[i], BabyBear { v: 1 }))
}

/// An affine function over the columns of a PAIR.
#[derive(Clone, Debug)]
pub struct VirtualPairCol {
    column_weights: Vec<(PairCol, BabyBear)>,
    constant: BabyBear,
}

impl VirtualPairCol {
    /// The weighted columns, in order.
    pub closed spec fn weights(self) -> Seq<(PairCol, BabyBear)> {
        self.column_weights@
    }

    /// The constant term.
    pub closed spec fn constant_term(self) -> BabyBear {
        self.constant
    }

    /// The weights and the constant are canonical field elements.
    pub open spec fn wf(self) -> bool {
        &&& self.constant_term().wf()
        &&& forall|i: int| 0 <= i < self.weights().len() ==> (#[trigger] self.weights()[i]).1.wf()
    }

    pub fn new(column_weights: Vec<(PairCol, BabyBear)>, constant: BabyBear) -> (r: VirtualPairCol)
        ensures
            r.weights() == column_weights@,
            r.constant_term() == constant,
    {
        VirtualPairCol { column_weights, constant }
    }

    fn tagged(column_weights: Vec<(usize, BabyBear)>, main: bool) -> (r: Vec<(PairCol, BabyBear)>)
        ensures
            r@ == tag_columns(column_weights@, main),
    {
        let mut out: Vec<(PairCol, BabyBear)> = Vec::new();
        let mut i: usize = 0;
        while i < column_weights.len()
            invariant
                i <= column_weights@.len(),
                out@ == tag_columns(column_weights@.subrange(0, i as int), main),
            decreases column_weights@.len() - i,
        {
            let (c, w) = column_weights[i];
            let col = if main {
                PairCol::Main(c)
            } else {
                PairCol::Preprocessed(c)
            };
            out.push((col, w));
            i = i + 1;
            proof {
                assert(out@ =~= tag_columns(column_weights@.subrange(0, i as int), main));
            }
        }
        proof {
            assert(column_weights@.subrange(0, column_weights@.len() as int) =~= column_weights@);
        }
        out
    }

    /// Weighted preprocessed columns.
    pub fn new_preprocessed(column_weights: Vec<(usize, BabyBear)>, constant: BabyBear) -> (r:
        VirtualPairCol)
        ensures
            r.weights() == tag_columns(column_weights@, false),
            r.constant_term() == constant,
    {
        VirtualPairCol::new(VirtualPairCol::tagged(column_weights, false), constant)
    }

    /// Weighted main columns.
    pub fn new_main(column_weights: Vec<(usize, BabyBear)>, constant: BabyBear) -> (r:
        VirtualPairCol)
        ensures
            r.weights() == tag_columns(column_weights@, true),
            r.constant_term() == constant,
    {
        VirtualPairCol::new(VirtualPairCol::tagged(column_weights, true), constant)
    }

    /// The constant function `x`.
    pub fn constant(x: BabyBear) -> (r: VirtualPairCol)
        ensures
            r.weights() == Seq::<(PairCol, BabyBear)>::empty(),
            r.constant_term() == x,
    {
        VirtualPairCol { column_weights: Vec::new(), constant: x }
    }

    /// The column itself.
    pub fn single(column: PairCol) -> (r: VirtualPairCol)
        ensures
            r.weights() == seq![(column, BabyBear { v: 1 })],
            r.constant_term() == (BabyBear { v: 0 }),
            r.wf(),
    {
        let mut ws: Vec<(PairCol, BabyBear)> = Vec::new();
        ws.push((column, BabyBear::one()));
        proof {
            assert(ws@ =~= seq![(column, BabyBear { v: 1 })]);
        }
        VirtualPairCol { column_weights: ws, constant: BabyBear::zero() }
    }

    /// Preprocessed column `column`.
    pub fn single_preprocessed(column: usize) -> (r: VirtualPairCol)
        ensures
            r.weights() == seq![(PairCol::Preprocessed(column), BabyBear { v: 1 })],
            r.constant_term() == (BabyBear { v: 0 }),
            r.wf(),
    {
        VirtualPairCol::single(PairCol::Preprocessed(column))
    }

    /// Main column `column`.
    pub fn single_main(column: usize) -> (r: VirtualPairCol)
        ensures
            r.weights() == seq![(PairCol::Main(column), BabyBear { v: 1 })],
            r.constant_term() == (BabyBear { v: 0 }),
            r.wf(),
    {
        VirtualPairCol::single(PairCol::Main(column))
    }

    fn unit(columns: Vec<usize>) -> (r: Vec<(usize, BabyBear)>)
        ensures
            r@ == unit_weights(columns@),
    {
        let mut out: Vec<(usize, BabyBear)> = Vec::new();
        let mut i: usize = 0;
        while i < columns.len()
            invariant
                i <= columns@.len(),
                out@ == unit_weights(columns@.subrange(0, i as int)),
            decreases columns@.len() - i,
        {
            out.push((columns[i], BabyBear::one()));
            i = i + 1;
            proof {
                assert(out@ =~= unit_weights(columns@.subrange(0, i as int)));
            }
        }
        proof {
            assert(columns@.subrange(0, columns@.len() as int) =~= columns@);
        }
        out
    }

    /// The sum of the given main columns.
    pub fn sum_main(columns: Vec<usize>) -> (r: VirtualPairCol)
        ensures
            r.weights() == tag_columns(unit_weights(columns@), true),
            r.constant_term() == (BabyBear { v: 0 }),
            r.wf(),
    {
        VirtualPairCol::new_main(VirtualPairCol::unit(columns), BabyBear::zero())
    }

    /// The sum of the given preprocessed columns.
    pub fn sum_preprocessed(columns: Vec<usize>) -> (r: VirtualPairCol)
        ensures
            r.weights() == tag_columns(unit_weights(columns@), false),
            r.constant_term() == (BabyBear { v: 0 }),
            r.wf(),
    {
        VirtualPairCol::new_preprocessed(VirtualPairCol::unit(columns), BabyBear::zero())
    }

    /// `a - b`, where `a` and `b` are columns of the preprocessed trace.
    pub fn diff_preprocessed(a_col: usize, b_col: usize) -> (r: VirtualPairCol)
        ensures
            r.weights() == seq![
                (PairCol::Preprocessed(a_col), BabyBear { v: 1 }),
                (PairCol::Preprocessed(b_col), BabyBear { v: (crate::field::P - 1) as u32 }),
            ],
            r.constant_term() == (BabyBear { v: 0 }),
            r.wf(),
    {
        let mut ws: Vec<(usize, BabyBear)> = Vec::new();
        ws.push((a_col, BabyBear::one()));
        ws.push((b_col, BabyBear::zero().sub(BabyBear::one())));
        let r = VirtualPairCol::new_preprocessed(ws, BabyBear::zero());
        proof {
            assert(r.weights() =~= seq![
                (PairCol::Preprocessed(a_col), BabyBear { v: 1 }),
                (PairCol::Preprocessed(b_col), BabyBear { v: (crate::field::P - 1) as u32 }),
            ]);
        }
        r
    }

    /// `a - b`, where `a` and `b` are columns of the main trace.
    pub fn diff_main(a_col: usize, b_col: usize) -> (r: VirtualPairCol)
        ensures
            r.weights() == seq![
                (PairCol::Main(a_col), BabyBear { v: 1 }),
                (PairCol::Main(b_col), BabyBear { v: (crate::field::P - 1) as u32 }),
            ],
            r.constant_term() == (BabyBear { v: 0 }),
            r.wf(),
    {
        let mut ws: Vec<(usize, BabyBear)> = Vec::new();
        ws.push((a_col, BabyBear::one()));
        ws.push((b_col, BabyBear::zero().sub(BabyBear::one())));
        let r = VirtualPairCol::new_main(ws, BabyBear::zero());
        proof {
            assert(r.weights() =~= seq![
                (PairCol::Main(a_col), BabyBear { v: 1 }),
                (PairCol::Main(b_col), BabyBear { v: (crate::field::P - 1) as u32 }),
            ]);
        }
        r
    }

    /// The value of the affine function on a preprocessed row and a main row.
    pub fn apply(&self, preprocessed: &[BabyBear], main: &[BabyBear]) -> (r: BabyBear)
        requires
            self.wf(),
            forall|i: int| 0 <= i < preprocessed@.len() ==> (#[trigger] preprocessed@[i]).wf(),
            forall|i: int| 0 <= i < main@.len() ==> (#[trigger] main@[i]).wf(),
            forall|i: int|
                0 <= i < self.weights().len() ==> col_in(
                    (#[trigger] self.weights()[i]).0,
                    preprocessed@.len(),
                    main@.len(),
                ),
        ensures
            r.wf(),
            r.val() == affine_value(self.weights(), self.constant_term(), preprocessed@, main@),
    {
        let mut result = self.constant;
        let mut i: usize = 0;
        proof {
            assert(self.column_weights@.subrange(0, 0) =~= Seq::<(PairCol, BabyBear)>::empty());
        }
        while i < self.column_weights.len()
            invariant
                i <= self.column_weights@.len(),
                self.wf(),
                forall|k: int| 0 <= k < preprocessed@.len() ==> (#[trigger] preprocessed@[k]).wf(),
                forall|k: int| 0 <= k < main@.len() ==> (#[trigger] main@[k]).wf(),
                forall|k: int|
                    0 <= k < self.weights().len() ==> col_in(
                        (#[trigger] self.weights()[k]).0,
                        preprocessed@.len(),
                        main@.len(),
                    ),
                result.wf(),
                result.val() == affine_value(
                    self.column_weights@.subrange(0, i as int),
                    self.constant,
                    preprocessed@,
                    main@,
                ),
            decreases self.column_weights@.len() - i,
        {
            let (column, weight) = self.column_weights[i];
            proof {
                assert(self.weights()[i as int] == (column, weight));
            }
            let v = column.get(preprocessed, main);
            proof {
                let s = self.column_weights@.subrange(0, i + 1);
                assert(s.drop_last() =~= self.column_weights@.subrange(0, i as int));
                assert(s.last() == (column, weight));
            }
            result = result.add(v.mul(weight));
            i = i + 1;
        }
        proof {
            assert(self.column_weights@.subrange(0, self.column_weights@.len() as int)
                =~= self.column_weights@);
        }
        result
    }
}

} // verus!
