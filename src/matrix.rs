//! The dense row-major trace matrix of p3-matrix, seen through its cells.

use vstd::prelude::*;
use p3_matrix::dense::{DenseMatrix, RowMajorMatrix};
use p3_matrix::Matrix;

verus! {

#[verifier::external_type_specification]
#[verifier::external_body]
#[verifier::reject_recursive_types(T)]
#[verifier::reject_recursive_types(V)]
pub struct ExDenseMatrix<T, V>(DenseMatrix<T, V>);

/// The cells of a trace matrix, row after row.
pub uninterp spec fn trace_cells(m: RowMajorMatrix<u32>) -> Seq<u32>;

/// The number of columns of a trace matrix.
pub uninterp spec fn trace_width(m: RowMajorMatrix<u32>) -> nat;

/// The number of complete rows: the cell count over the width, or zero for
/// a matrix of width zero.
pub open spec fn trace_height(m: RowMajorMatrix<u32>) -> nat {
    if trace_width(m) == 0 {
        0
    } else {
        trace_cells(m).len() / trace_width(m)
    }
}

/// Relies on `Matrix::width` of p3-matrix's dense matrix, which returns the
/// stored width.
#[verifier::external_body]
pub(crate) fn matrix_width(m: &RowMajorMatrix<u32>) -> (r: usize)
    ensures
        r as nat == trace_width(*m),
{
    m.width()
}

/// Relies on `Matrix::height` of p3-matrix's dense matrix, which divides the
/// number of values by the width, or returns zero when the width is zero.
#[verifier::external_body]
pub(crate) fn matrix_height(m: &RowMajorMatrix<u32>) -> (r: usize)
    ensures
        r as nat == trace_height(*m),
{
    m.height()
}

/// Relies on `Matrix::get` of p3-matrix's dense matrix, which returns the
/// value at `r * width + c` when `r` is below the height and `c` below the
/// width, and `None` otherwise.
#[verifier::external_body]
pub(crate) fn matrix_get(m: &RowMajorMatrix<u32>, r: usize, c: usize) -> (o: Option<u32>)
    ensures
        (r < trace_height(*m) && c < trace_width(*m)) ==> o == Some(
            trace_cells(*m)[r * trace_width(*m) + c],
        ),
        !(r < trace_height(*m) && c < trace_width(*m)) ==> o is None,
{
    m.get(r, c)
}

} // verus!
