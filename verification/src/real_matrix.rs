//! The dense matrix container.
//!
//! A [`RealMatrix`] keeps its cells in a two-dimensional `ndarray` array. Each
//! cell is the binary64 encoding of a real number (see [`crate::binary64`]).
//! The array itself is opaque to the verifier: what it holds is named by
//! [`grid_cells`] and [`grid_layout`], and the few array operations that the
//! container uses are stated over those names.

use vstd::prelude::*;
use crate::errors::LeastSquaresError;

verus! {

/// The cells of a matrix: an `ndarray::Array2` of binary64 encodings.
#[verifier::external_body]
#[derive(Debug, PartialEq)]
pub struct Grid {
    cells: ndarray::Array2<u64>,
}

/// The error of `ndarray` for a shape that does not fit the data.
#[verifier::external_type_specification]
#[verifier::external_body]
pub struct ExShapeError(ndarray::ShapeError);

/// The elements of the array in logical order: row by row, each row from its
/// first column to its last.
pub uninterp spec fn grid_cells(grid: Grid) -> Seq<u64>;

/// How the array is laid out: its number of rows, its number of columns, and
/// its strides, the distances in memory, in elements, between neighbours
/// along the rows axis and along the columns axis.
pub uninterp spec fn grid_layout(grid: Grid) -> (nat, nat, int, int);

/// The number of rows and of columns of the array.
pub open spec fn grid_shape(grid: Grid) -> (nat, nat) {
    (grid_layout(grid).0, grid_layout(grid).1)
}

/// The strides of the array along the rows axis and along the columns axis.
pub open spec fn grid_strides(grid: Grid) -> (int, int) {
    (grid_layout(grid).2, grid_layout(grid).3)
}

/// The size of the buffer that backs an array of this shape: the product of
/// the axis lengths that are not zero.
pub open spec fn buffer_size(n_rows: nat, n_cols: nat) -> nat {
    if n_rows == 0 {
        if n_cols == 0 { 1 } else { n_cols }
    } else if n_cols == 0 {
        n_rows
    } else {
        n_rows * n_cols
    }
}

/// An array of this shape can be allocated: its buffer size does not exceed
/// `isize::MAX` elements, nor its cells `isize::MAX` bytes.
pub open spec fn shape_fits(n_rows: nat, n_cols: nat) -> bool {
    &&& buffer_size(n_rows, n_cols) <= isize::MAX
    &&& n_rows * n_cols * 8 <= isize::MAX
}

/// A buffer of `len` elements can be read as an array of this shape: the
/// shape has exactly `len` cells, and its buffer size does not exceed
/// `isize::MAX`.
pub open spec fn shape_holds(n_rows: nat, n_cols: nat, len: nat) -> bool {
    &&& buffer_size(n_rows, n_cols) <= isize::MAX
    &&& n_rows * n_cols == len
}

/// The strides that a freshly built row-major array of this shape has.
pub open spec fn row_major_strides(n_rows: nat, n_cols: nat) -> (int, int) {
    if n_rows == 0 || n_cols == 0 {
        (0, 0)
    } else {
        (n_cols as int, 1)
    }
}

/// The layout of a freshly built row-major array of this shape.
pub open spec fn row_major_layout(n_rows: nat, n_cols: nat) -> (nat, nat, int, int) {
    (n_rows, n_cols, row_major_strides(n_rows, n_cols).0, row_major_strides(n_rows, n_cols).1)
}

/// The layout with the two axes exchanged, shape and strides alike.
pub open spec fn reversed_layout(layout: (nat, nat, int, int)) -> (nat, nat, int, int) {
    (layout.1, layout.0, layout.3, layout.2)
}

/// An array of this shape and these strides is contiguous in row-major order,
/// so that its cells can be borrowed as one slice. An axis of length 1 may
/// have any stride, and an empty array is always in order.
pub open spec fn standard_layout(shape: (nat, nat), strides: (int, int)) -> bool {
    ||| shape.0 == 0
    ||| shape.1 == 0
    ||| {
        &&& shape.1 == 1 || strides.1 == 1
        &&& shape.0 == 1 || strides.0 == (if shape.1 == 1 { 1 } else { shape.1 as int })
    }
}

/// The cells of the transpose of a matrix of `n_rows` rows and `n_cols`
/// columns, in logical order: the transpose has `n_rows` columns, so its cell
/// at index `k` is its cell `(k / n_rows, k % n_rows)`, which is cell
/// `(k % n_rows, k / n_rows)` of the matrix.
pub open spec fn transposed_cells(cells: Seq<u64>, n_rows: nat, n_cols: nat) -> Seq<u64> {
    Seq::new(
        n_rows * n_cols,
        |k: int| cells[(k % n_rows as int) * n_cols + k / n_rows as int],
    )
}

/// `Clone::clone` of the `ndarray` array: an array of the same shape and
/// strides with the same elements.
#[verifier::external_body]
fn grid_clone(grid: &Grid) -> (copy: Grid)
    ensures
        grid_layout(copy) == grid_layout(*grid),
        grid_cells(copy) == grid_cells(*grid),
{
    Grid { cells: grid.cells.clone() }
}

/// `ndarray::ArrayBase::dim`: the shape of the array. The elements in logical
/// order are as many as the shape has cells.
#[verifier::external_body]
fn grid_dim(grid: &Grid) -> (shape: (usize, usize))
    ensures
        grid_shape(*grid) == (shape.0 as nat, shape.1 as nat),
        grid_cells(*grid).len() == shape.0 * shape.1,
{
    grid.cells.dim()
}

/// `ndarray::ArrayBase::zeros`: a row-major array of the given shape whose
/// every element is zero. It panics where the shape does not fit; such shapes
/// are left out.
#[verifier::external_body]
fn grid_zeros(n_rows: usize, n_cols: usize) -> (grid: Grid)
    requires
        shape_fits(n_rows as nat, n_cols as nat),
    ensures
        grid_layout(grid) == row_major_layout(n_rows as nat, n_cols as nat),
        grid_cells(grid) == Seq::new((n_rows * n_cols) as nat, |k: int| 0u64),
{
    Grid { cells: ndarray::Array2::zeros((n_rows, n_cols)) }
}

/// `ndarray::ArrayBase::from_shape_vec` with a shape of two axes and default
/// strides: a row-major array that holds the elements of `data` in their
/// order, if the buffer size of the shape does not exceed `isize::MAX` and the
/// shape has as many cells as `data` has elements; an error otherwise.
#[verifier::external_body]
fn grid_from_shape_vec(n_rows: usize, n_cols: usize, data: Vec<u64>) -> (r: Result<Grid, ndarray::ShapeError>)
    ensures
        r is Ok <==> shape_holds(n_rows as nat, n_cols as nat, data@.len()),
        r matches Ok(grid) ==> grid_layout(grid) == row_major_layout(n_rows as nat, n_cols as nat),
        r matches Ok(grid) ==> grid_cells(grid) == data@,
{
    match ndarray::Array2::from_shape_vec((n_rows, n_cols), data) {
        Ok(cells) => Ok(Grid { cells }),
        Err(e) => Err(e),
    }
}

/// `ndarray::ArrayBase::reversed_axes`: the array with its two axes
/// exchanged, shape and strides alike, over the same elements in memory.
#[verifier::external_body]
fn grid_reversed_axes(grid: Grid) -> (t: Grid)
    ensures
        grid_layout(t) == reversed_layout(grid_layout(grid)),
        grid_cells(t) == transposed_cells(grid_cells(grid), grid_shape(grid).0, grid_shape(grid).1),
{
    Grid { cells: grid.cells.reversed_axes() }
}

/// `ndarray::ArrayBase::as_slice`: the elements in logical order as one
/// slice, exactly when the array is in standard layout.
#[verifier::external_body]
fn grid_as_slice(grid: &Grid) -> (r: Option<&[u64]>)
    ensures
        r is Some <==> standard_layout(grid_shape(*grid), grid_strides(*grid)),
        r matches Some(slice) ==> slice@ == grid_cells(*grid),
{
    grid.cells.as_slice()
}

/// `ndarray::ArrayBase::as_slice_mut`: the elements in logical order as one
/// mutable slice, exactly when the array is in standard layout. What is
/// written to the slice is written to the array; shape and strides stay.
#[verifier::external_body]
fn grid_as_slice_mut(grid: &mut Grid) -> (r: Option<&mut [u64]>)
    ensures
        r is Some <==> standard_layout(grid_shape(*old(grid)), grid_strides(*old(grid))),
        r matches Some(slice) ==> slice@ == grid_cells(*old(grid)),
        r matches Some(slice) ==> grid_cells(*final(grid)) == final(slice)@,
        r is None ==> grid_cells(*final(grid)) == grid_cells(*old(grid)),
        grid_layout(*final(grid)) == grid_layout(*old(grid)),
{
    grid.cells.as_slice_mut()
}

/// Indexing an `ndarray` array by a pair: the element at row `i`, column `j`.
/// It panics outside the array; such indices are left out.
#[verifier::external_body]
fn grid_get(grid: &Grid, i: usize, j: usize) -> (cell: u64)
    requires
        i < grid_shape(*grid).0,
        j < grid_shape(*grid).1,
    ensures
        cell == grid_cells(*grid)[i * grid_shape(*grid).1 + j],
{
    grid.cells[[i, j]]
}

/// Assigning through the index of an `ndarray` array by a pair: the element
/// at row `i`, column `j` becomes `value`, and nothing else changes. It panics
/// outside the array; such indices are left out.
#[verifier::external_body]
fn grid_set(grid: &mut Grid, i: usize, j: usize, value: u64)
    requires
        i < grid_shape(*old(grid)).0,
        j < grid_shape(*old(grid)).1,
    ensures
        grid_layout(*final(grid)) == grid_layout(*old(grid)),
        grid_cells(*final(grid)) == grid_cells(*old(grid)).update(
            i * grid_shape(*old(grid)).1 + j,
            value,
        ),
{
    grid.cells[[i, j]] = value;
}

/// `ndarray::ArrayBase::ndim`: the number of axes, which the type fixes at
/// two.
#[verifier::external_body]
fn grid_ndim(grid: &Grid) -> (n: usize)
    ensures
        n == 2,
{
    grid.cells.ndim()
}

/// `ndarray::ArrayBase::is_empty`: the array has no element.
#[verifier::external_body]
fn grid_is_empty(grid: &Grid) -> (r: bool)
    ensures
        r == (grid_cells(*grid).len() == 0),
{
    grid.cells.is_empty()
}

/// A dense matrix of real numbers with a fixed shape.
#[derive(Debug, PartialEq)]
pub struct RealMatrix {
    pub values: Grid,
}

impl Clone for RealMatrix {
    /// A matrix of the same shape with the same cells, laid out alike.
    fn clone(&self) -> (copy: RealMatrix)
        ensures
            copy.same_as(self),
            copy.row_major() == self.row_major(),
    {
        RealMatrix { values: grid_clone(&self.values) }
    }
}

impl RealMatrix {
    /// The number of rows.
    pub open spec fn rows(&self) -> nat {
        grid_shape(self.values).0
    }

    /// The number of columns.
    pub open spec fn cols(&self) -> nat {
        grid_shape(self.values).1
    }

    /// The cells in row-major order.
    pub open spec fn cells(&self) -> Seq<u64> {
        grid_cells(self.values)
    }

    /// The cell at row `i`, column `j`.
    pub open spec fn at(&self, i: int, j: int) -> u64 {
        self.cells()[i * self.cols() + j]
    }

    /// The cells can be borrowed as one row-major slice.
    pub open spec fn row_major(&self) -> bool {
        standard_layout(grid_shape(self.values), grid_strides(self.values))
    }

    /// Both matrices have the same shape and the same cells.
    pub open spec fn same_as(&self, other: &RealMatrix) -> bool {
        &&& self.rows() == other.rows()
        &&& self.cols() == other.cols()
        &&& self.cells() == other.cells()
    }

    /// Tests whether a matrix of the given shape can be allocated.
    pub fn can_hold(n_rows: usize, n_cols: usize) -> (r: bool)
        ensures
            r == shape_fits(n_rows as nat, n_cols as nat),
    {
        let limit: usize = isize::MAX as usize;
        if n_rows > limit || n_cols > limit {
            proof {
                if n_rows > 0 && n_cols > 0 {
                    assert(n_rows * n_cols > isize::MAX) by (nonlinear_arith)
                        requires
                            n_rows > isize::MAX || n_cols > isize::MAX,
                            n_rows > 0,
                            n_cols > 0,
                    ;
                }
            }
            return false;
        }
        assert(n_rows * n_cols <= 0x8000_0000_0000_0000 * 0x8000_0000_0000_0000) by (nonlinear_arith)
            requires
                n_rows <= 0x8000_0000_0000_0000,
                n_cols <= 0x8000_0000_0000_0000,
        ;
        let cells: u128 = (n_rows as u128) * (n_cols as u128);
        cells <= (limit / 8) as u128
    }

    /// A zero-filled matrix of the given shape.
    pub fn with_shape(n_rows: usize, n_cols: usize) -> (m: RealMatrix)
        requires
            shape_fits(n_rows as nat, n_cols as nat),
        ensures
            m.rows() == n_rows,
            m.cols() == n_cols,
            m.cells() == Seq::new((n_rows * n_cols) as nat, |k: int| 0u64),
            m.row_major(),
    {
        RealMatrix { values: grid_zeros(n_rows, n_cols) }
    }

    /// The matrix of `n_rows` rows whose cells are `data`, row by row; one
    /// column where `n_cols` is not given. The shape must have exactly as many
    /// cells as `data` has elements.
    pub fn from_vec(data: Vec<u64>, n_rows: usize, n_cols: Option<usize>) -> (r: Result<RealMatrix, LeastSquaresError>)
        ensures
            match r {
                Ok(m) => {
                    &&& shape_holds(n_rows as nat, columns_or_one(n_cols) as nat, data@.len())
                    &&& m.rows() == n_rows
                    &&& m.cols() == columns_or_one(n_cols)
                    &&& m.cells() == data@
                    &&& m.row_major()
                },
                Err(e) => {
                    &&& !shape_holds(n_rows as nat, columns_or_one(n_cols) as nat, data@.len())
                    &&& e == (LeastSquaresError::DimensionMismatch {
                        expected_rows: n_rows,
                        expected_cols: columns_or_one(n_cols),
                        found_rows: data@.len() as usize,
                        found_cols: 1,
                    })
                },
            },
    {
        let columns: usize = match n_cols {
            Some(c) => c,
            None => 1,
        };
        let len: usize = data.len();
        match grid_from_shape_vec(n_rows, columns, data) {
            Ok(values) => Ok(RealMatrix { values }),
            Err(_) => Err(
                LeastSquaresError::DimensionMismatch {
                    expected_rows: n_rows,
                    expected_cols: columns,
                    found_rows: len,
                    found_cols: 1,
                },
            ),
        }
    }

    /// The transpose: cell `(i, j)` of the result is cell `(j, i)` of the
    /// matrix. The result is a copy that keeps the order of the cells in
    /// memory, so it is row-major only where the matrix has at most one row
    /// or one column, or was itself a transpose.
    pub fn transpose(&self) -> (t: RealMatrix)
        ensures
            t.rows() == self.cols(),
            t.cols() == self.rows(),
            t.cells() == transposed_cells(self.cells(), self.rows(), self.cols()),
            forall|i: int, j: int| 0 <= i < t.rows() && 0 <= j < t.cols() ==> #[trigger] t.at(i, j) == self.at(j, i),
            grid_strides(t.values) == (grid_strides(self.values).1, grid_strides(self.values).0),
    {
        let t = RealMatrix { values: grid_reversed_axes(grid_clone(&self.values)) };
        proof {
            assert forall|i: int, j: int| 0 <= i < t.rows() && 0 <= j < t.cols() implies #[trigger] t.at(i, j)
                == self.at(j, i) by {
                transposed_cell_is_mirrored(self.cells(), self.rows(), self.cols(), i, j);
            }
        }
        t
    }

    /// The cells as one slice in row-major order, if they are laid out so.
    pub fn as_slice(&self) -> (r: Option<&[u64]>)
        ensures
            r is Some <==> self.row_major(),
            r matches Some(slice) ==> slice@ == self.cells(),
    {
        grid_as_slice(&self.values)
    }

    /// The cells as one mutable slice in row-major order, if they are laid
    /// out so. What is written to the slice is written to the matrix.
    pub fn as_slice_mut(&mut self) -> (r: Option<&mut [u64]>)
        ensures
            r is Some <==> old(self).row_major(),
            r matches Some(slice) ==> slice@ == old(self).cells(),
            r matches Some(slice) ==> final(self).cells() == final(slice)@,
            r is None ==> final(self).cells() == old(self).cells(),
            final(self).rows() == old(self).rows(),
            final(self).cols() == old(self).cols(),
            final(self).row_major() == old(self).row_major(),
    {
        grid_as_slice_mut(&mut self.values)
    }

    /// The shape of the product of this matrix with `other`: the rows of this
    /// one by the columns of the other. The other must have a row for each
    /// column of this one.
    pub fn product_shape(&self, other: &RealMatrix) -> (r: Result<(usize, usize), LeastSquaresError>)
        ensures
            match r {
                Ok(shape) => {
                    &&& self.cols() == other.rows()
                    &&& shape.0 == self.rows()
                    &&& shape.1 == other.cols()
                },
                Err(e) => {
                    &&& self.cols() != other.rows()
                    &&& e == (LeastSquaresError::DimensionMismatch {
                        expected_rows: self.cols() as usize,
                        expected_cols: other.cols() as usize,
                        found_rows: other.rows() as usize,
                        found_cols: other.cols() as usize,
                    })
                },
            },
    {
        let left: [usize; 2] = self.shape();
        let right: [usize; 2] = other.shape();
        if left[1] == right[0] {
            Ok((left[0], right[1]))
        } else {
            Err(
                LeastSquaresError::DimensionMismatch {
                    expected_rows: left[1],
                    expected_cols: right[1],
                    found_rows: right[0],
                    found_cols: right[1],
                },
            )
        }
    }

    /// The shape of the sum or difference of this matrix and `other`, cell by
    /// cell: the shape of both. The two must have the same shape.
    pub fn elementwise_shape(&self, other: &RealMatrix) -> (r: Result<(usize, usize), LeastSquaresError>)
        ensures
            match r {
                Ok(shape) => {
                    &&& self.rows() == other.rows()
                    &&& self.cols() == other.cols()
                    &&& shape.0 == self.rows()
                    &&& shape.1 == self.cols()
                },
                Err(e) => {
                    &&& !(self.rows() == other.rows() && self.cols() == other.cols())
                    &&& e == (LeastSquaresError::DimensionMismatch {
                        expected_rows: self.rows() as usize,
                        expected_cols: self.cols() as usize,
                        found_rows: other.rows() as usize,
                        found_cols: other.cols() as usize,
                    })
                },
            },
    {
        let left: [usize; 2] = self.shape();
        let right: [usize; 2] = other.shape();
        if left[0] == right[0] && left[1] == right[1] {
            Ok((left[0], left[1]))
        } else {
            Err(
                LeastSquaresError::DimensionMismatch {
                    expected_rows: left[0],
                    expected_cols: left[1],
                    found_rows: right[0],
                    found_cols: right[1],
                },
            )
        }
    }

    /// The numbers of rows and of columns.
    pub fn shape(&self) -> (r: [usize; 2])
        ensures
            r[0] == self.rows(),
            r[1] == self.cols(),
            self.cells().len() == self.rows() * self.cols(),
    {
        let (n_rows, n_cols) = grid_dim(&self.values);
        [n_rows, n_cols]
    }

    /// The number of rows.
    pub fn n_rows(&self) -> (r: usize)
        ensures
            r == self.rows(),
            self.cells().len() == self.rows() * self.cols(),
    {
        grid_dim(&self.values).0
    }

    /// The number of columns.
    pub fn n_cols(&self) -> (r: usize)
        ensures
            r == self.cols(),
            self.cells().len() == self.rows() * self.cols(),
    {
        grid_dim(&self.values).1
    }

    /// The matrix is a single row or a single column.
    pub fn is_vec(&self) -> (r: bool)
        ensures
            r == (self.cols() == 1 || self.rows() == 1),
    {
        self.n_cols() == 1 || self.n_rows() == 1
    }

    /// The matrix has no cell.
    pub fn is_empty(&self) -> (r: bool)
        ensures
            r == (self.cells().len() == 0),
    {
        grid_is_empty(&self.values)
    }

    /// The number of axes: always two.
    pub fn ndim(&self) -> (r: usize)
        ensures
            r == 2,
    {
        grid_ndim(&self.values)
    }

    /// The cell at row `i`, column `j`.
    pub fn get(&self, i: usize, j: usize) -> (cell: u64)
        requires
            i < self.rows(),
            j < self.cols(),
        ensures
            cell == self.at(i as int, j as int),
    {
        grid_get(&self.values, i, j)
    }

    /// Stores `value` in the cell at row `i`, column `j`.
    pub fn set(&mut self, i: usize, j: usize, value: u64)
        requires
            i < old(self).rows(),
            j < old(self).cols(),
        ensures
            final(self).rows() == old(self).rows(),
            final(self).cols() == old(self).cols(),
            final(self).cells() == old(self).cells().update(i * old(self).cols() + j, value),
            final(self).row_major() == old(self).row_major(),
    {
        grid_set(&mut self.values, i, j, value)
    }

    /// Exchanges columns `a` and `b`; every other cell stays.
    pub fn swap_columns(&mut self, a: usize, b: usize)
        requires
            a < old(self).cols(),
            b < old(self).cols(),
        ensures
            final(self).rows() == old(self).rows(),
            final(self).cols() == old(self).cols(),
            final(self).cells().len() == old(self).cells().len(),
            final(self).row_major() == old(self).row_major(),
            forall|i: int, j: int|
                0 <= i < old(self).rows() && 0 <= j < old(self).cols() ==> #[trigger] final(self).at(i, j)
                    == old(self).at(i, exchanged(j, a as int, b as int)),
    {
        let n_rows: usize = self.n_rows();
        let ghost before = *self;
        let ghost cols = self.cols() as int;
        let mut i: usize = 0;
        while i < n_rows
            invariant
                i <= n_rows,
                n_rows == before.rows(),
                cols == before.cols(),
                a < cols,
                b < cols,
                self.rows() == before.rows(),
                self.cols() == before.cols(),
                self.cells().len() == before.cells().len(),
                before.cells().len() == before.rows() * before.cols(),
                self.row_major() == before.row_major(),
                forall|r: int, j: int|
                    0 <= r < i && 0 <= j < cols ==> #[trigger] self.at(r, j) == before.at(
                        r,
                        exchanged(j, a as int, b as int),
                    ),
                forall|r: int, j: int|
                    i <= r < n_rows && 0 <= j < cols ==> #[trigger] self.at(r, j) == before.at(r, j),
            decreases n_rows - i,
        {
            let ghost entry = *self;
            proof {
                cell_index_in_range(i as int, a as int, n_rows as int, cols);
                cell_index_in_range(i as int, b as int, n_rows as int, cols);
            }
            let left: u64 = self.get(i, a);
            let right: u64 = self.get(i, b);
            self.set(i, a, right);
            self.set(i, b, left);
            proof {
                assert forall|r: int, j: int| 0 <= r < n_rows && 0 <= j < cols implies #[trigger] self.at(r, j) == (
                if r == i {
                    entry.at(r, exchanged(j, a as int, b as int))
                } else {
                    entry.at(r, j)
                }) by {
                    cell_index_is_injective(r, j, i as int, a as int, cols);
                    cell_index_is_injective(r, j, i as int, b as int, cols);
                    cell_index_in_range(r, j, n_rows as int, cols);
                    cell_index_in_range(i as int, a as int, n_rows as int, cols);
                    cell_index_in_range(i as int, b as int, n_rows as int, cols);
                }
            }
            i = i + 1;
        }
    }
}

/// The column that column `j` trades places with when `a` and `b` are
/// exchanged.
pub open spec fn exchanged(j: int, a: int, b: int) -> int {
    if j == a {
        b
    } else if j == b {
        a
    } else {
        j
    }
}

/// Cell `(i, j)` of the transpose is cell `(j, i)` of the matrix.
pub proof fn transposed_cell_is_mirrored(cells: Seq<u64>, n_rows: nat, n_cols: nat, i: int, j: int)
    requires
        0 <= i < n_cols,
        0 <= j < n_rows,
    ensures
        0 <= i * n_rows + j < n_rows * n_cols,
        transposed_cells(cells, n_rows, n_cols)[i * n_rows + j] == cells[j * n_cols + i],
{
    cell_index_in_range(i, j, n_cols as int, n_rows as int);
    assert(n_cols * n_rows == n_rows * n_cols) by (nonlinear_arith);
    let k = i * n_rows + j;
    vstd::arithmetic::div_mod::lemma_fundamental_div_mod_converse(k, n_rows as int, i, j);
}

/// Every row-major index is the index of a cell: of row `k / n_cols`, column
/// `k % n_cols`.
pub proof fn cell_index_splits(k: int, n_rows: int, n_cols: int)
    requires
        0 <= k < n_rows * n_cols,
        0 <= n_rows,
        0 <= n_cols,
    ensures
        n_cols > 0,
        0 <= k / n_cols < n_rows,
        0 <= k % n_cols < n_cols,
        (k / n_cols) * n_cols + k % n_cols == k,
{
    assert(n_cols > 0) by (nonlinear_arith)
        requires
            0 <= k < n_rows * n_cols,
            0 <= n_rows,
            0 <= n_cols,
    ;
    vstd::arithmetic::div_mod::lemma_fundamental_div_mod(k, n_cols);
    vstd::arithmetic::div_mod::lemma_mod_bound(k, n_cols);
    vstd::arithmetic::div_mod::lemma_div_pos_is_pos(k, n_cols);
    let q = k / n_cols;
    let m = k % n_cols;
    assert(n_cols * q == q * n_cols) by (nonlinear_arith);
    assert(q < n_rows) by (nonlinear_arith)
        requires
            q * n_cols + m == k,
            k < n_rows * n_cols,
            0 <= m,
            n_cols > 0,
    ;
}

/// Transposing twice gives the matrix back: the cells of the transpose of the
/// transpose are the cells of the matrix.
pub proof fn transpose_twice_is_identity(cells: Seq<u64>, n_rows: nat, n_cols: nat)
    requires
        cells.len() == n_rows * n_cols,
    ensures
        transposed_cells(transposed_cells(cells, n_rows, n_cols), n_cols, n_rows) == cells,
{
    let once = transposed_cells(cells, n_rows, n_cols);
    let twice = transposed_cells(once, n_cols, n_rows);
    assert(n_cols * n_rows == n_rows * n_cols) by (nonlinear_arith);
    assert forall|k: int| 0 <= k < cells.len() implies twice[k] == cells[k] by {
        cell_index_splits(k, n_rows as int, n_cols as int);
        let i = k / (n_cols as int);
        let j = k % (n_cols as int);
        // cell (i, j) of the matrix is cell (j, i) of the transpose
        transposed_cell_is_mirrored(once, n_cols, n_rows, i, j);
        transposed_cell_is_mirrored(cells, n_rows, n_cols, j, i);
    }
    assert(twice =~= cells);
}

/// The row-major index of a cell lies within the cells.
pub proof fn cell_index_in_range(i: int, j: int, n_rows: int, n_cols: int)
    requires
        0 <= i < n_rows,
        0 <= j < n_cols,
    ensures
        0 <= i * n_cols + j < n_rows * n_cols,
{
    assert(i * n_cols + j < n_rows * n_cols) by (nonlinear_arith)
        requires
            0 <= i < n_rows,
            0 <= j < n_cols,
    ;
    assert(0 <= i * n_cols) by (nonlinear_arith)
        requires
            0 <= i,
            0 <= n_cols,
    ;
}

/// Two cells with the same row-major index are the same cell.
pub proof fn cell_index_is_injective(i: int, j: int, k: int, l: int, n_cols: int)
    requires
        0 <= j < n_cols,
        0 <= l < n_cols,
    ensures
        i * n_cols + j == k * n_cols + l ==> i == k && j == l,
{
    assert(i * n_cols + j == k * n_cols + l ==> i == k && j == l) by (nonlinear_arith)
        requires
            0 <= j < n_cols,
            0 <= l < n_cols,
    ;
}

/// The number of columns that `from_vec` takes for its optional argument.
pub open spec fn columns_or_one(n_cols: Option<usize>) -> usize {
    match n_cols {
        Some(c) => c,
        None => 1,
    }
}

} // verus!
