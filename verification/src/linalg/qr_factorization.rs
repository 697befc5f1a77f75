//! The decisions of a Householder QR decomposition with column pivoting.
//!
//! The decomposition alternates arithmetic on the cells with decisions that
//! depend only on how encoded values compare: which column to pivot on, how
//! the pivot order records the exchange, how many columns count as
//! independent, and where each coefficient belongs once the pivoting is
//! undone. The decisions are made here.

use vstd::prelude::*;
use crate::binary64::{abs, exceeds, gt, magnitude, nan, position, exceeds_is_strict_order, ZERO};
use crate::errors::LeastSquaresError;
use crate::real_matrix::{
    cell_index_in_range, cell_index_is_injective, cell_index_splits, exchanged, shape_fits, RealMatrix,
};

verus! {

/// The sequence holds each of the indices `0 .. len` exactly once.
pub open spec fn is_permutation(order: Seq<usize>) -> bool {
    &&& forall|i: int| 0 <= i < order.len() ==> (#[trigger] order[i]) < order.len()
    &&& forall|i: int, j: int| 0 <= i < j < order.len() ==> order[i] != order[j]
}

/// The pivot order before any exchange: every column in its own place.
pub fn identity_pivot(n_cols: usize) -> (order: Vec<usize>)
    ensures
        order@.len() == n_cols,
        forall|i: int| 0 <= i < n_cols ==> order@[i] == i,
        is_permutation(order@),
{
    let mut order: Vec<usize> = Vec::new();
    let mut i: usize = 0;
    while i < n_cols
        invariant
            i <= n_cols,
            order@.len() == i,
            forall|k: int| 0 <= k < i ==> order@[k] == k,
        decreases n_cols - i,
    {
        order.push(i);
        i = i + 1;
    }
    order
}

/// Tests whether a list of column indices is a pivot order: a permutation
/// of the indices below its length.
pub fn is_pivot_order(order: &Vec<usize>) -> (r: bool)
    ensures
        r == is_permutation(order@),
{
    let n: usize = order.len();
    let mut seen: Vec<bool> = vec![false; n];
    let mut i: usize = 0;
    while i < n
        invariant
            i <= n,
            n == order@.len(),
            seen@.len() == n,
            forall|k: int| 0 <= k < i ==> (#[trigger] order@[k]) < n,
            forall|k: int, l: int| 0 <= k < l < i ==> order@[k] != order@[l],
            forall|v: int| 0 <= v < n && #[trigger] seen@[v] ==> exists|k: int| 0 <= k < i && order@[k] == v,
            forall|k: int| 0 <= k < i ==> seen@[(#[trigger] order@[k]) as int],
        decreases n - i,
    {
        let v: usize = order[i];
        if v >= n {
            return false;
        }
        if seen[v] {
            proof {
                let k = choose|k: int| 0 <= k < i && order@[k] == v;
                assert(order@[k] == order@[i as int]);
            }
            return false;
        }
        seen.set(v, true);
        i = i + 1;
    }
    true
}

/// The column that a scan of `norms[from .. upto]` settles on: it starts with
/// `from` and moves to a later column only where that column's norm exceeds
/// the norm of the column held so far. Among equal norms the first stays.
pub open spec fn pivot_of(norms: Seq<u64>, from: int, upto: int) -> int
    decreases upto - from,
{
    if upto <= from + 1 {
        from
    } else {
        let held = pivot_of(norms, from, upto - 1);
        if exceeds(norms[upto - 1], norms[held]) {
            upto - 1
        } else {
            held
        }
    }
}

/// The pivot lies in the range that was scanned.
pub proof fn pivot_of_in_range(norms: Seq<u64>, from: int, upto: int)
    requires
        from < upto,
    ensures
        from <= pivot_of(norms, from, upto) < upto,
    decreases upto - from,
{
    if upto > from + 1 {
        pivot_of_in_range(norms, from, upto - 1);
    }
}

/// Where no norm in the range is NaN, the pivot is the first column of
/// largest norm: no column of the range exceeds it, and it exceeds every
/// column before it.
pub proof fn pivot_of_is_first_largest(norms: Seq<u64>, from: int, upto: int)
    requires
        0 <= from < upto <= norms.len(),
        forall|i: int| from <= i < upto ==> !nan(#[trigger] norms[i]),
    ensures
        forall|i: int| from <= i < upto ==> !exceeds(#[trigger] norms[i], norms[pivot_of(norms, from, upto)]),
        forall|i: int| from <= i < pivot_of(norms, from, upto) ==> exceeds(norms[pivot_of(norms, from, upto)], #[trigger] norms[i]),
    decreases upto - from,
{
    if upto > from + 1 {
        pivot_of_is_first_largest(norms, from, upto - 1);
        pivot_of_in_range(norms, from, upto - 1);
        let held = pivot_of(norms, from, upto - 1);
        let chosen = pivot_of(norms, from, upto);
        assert forall|i: int| from <= i < upto implies !exceeds(#[trigger] norms[i], norms[chosen]) by {
            exceeds_is_strict_order(norms[i], norms[held], norms[chosen]);
            exceeds_is_strict_order(norms[i], norms[chosen], norms[held]);
        }
        assert forall|i: int| from <= i < chosen implies exceeds(norms[chosen], #[trigger] norms[i]) by {
            if chosen == upto - 1 {
                if i < held {
                    exceeds_is_strict_order(norms[chosen], norms[held], norms[i]);
                } else if i == held {
                } else {
                    // held < i < upto - 1: norms[i] does not exceed norms[held],
                    // and norms[chosen] exceeds norms[held].
                    assert(!exceeds(norms[i], norms[held]));
                    assert(position(norms[i]) <= position(norms[held]));
                }
            }
        }
    }
}

/// Of equal norms the first column encountered stays the pivot: where no
/// column of the range exceeds the column it starts from, that column is the
/// pivot, and the exchange of a pivot step changes nothing.
pub proof fn pivot_stays_where_none_exceeds(norms: Seq<u64>, from: int, upto: int)
    requires
        0 <= from < upto <= norms.len(),
        forall|i: int| from <= i < upto ==> !exceeds(#[trigger] norms[i], norms[from]),
    ensures
        pivot_of(norms, from, upto) == from,
    decreases upto - from,
{
    if upto > from + 1 {
        pivot_stays_where_none_exceeds(norms, from, upto - 1);
    }
}

/// Selects the pivot column of a step: among the columns `from ..`, the one
/// whose norm is largest, and of several such the first.
pub fn select_pivot(norms: &Vec<u64>, from: usize) -> (pivot: usize)
    requires
        from < norms@.len(),
    ensures
        pivot == pivot_of(norms@, from as int, norms@.len() as int),
        from <= pivot < norms@.len(),
{
    let n: usize = norms.len();
    let mut held: usize = from;
    let mut next: usize = from + 1;
    while next < n
        invariant
            n == norms@.len(),
            from < next <= norms@.len(),
            from <= held < next,
            held == pivot_of(norms@, from as int, next as int),
        decreases norms@.len() - next,
    {
        if gt(norms[next], norms[held]) {
            held = next;
        }
        next = next + 1;
    }
    held
}

/// The encoding of `2^-26`, the square root of the spacing of
/// double-precision numbers at one: the share of a column's norm below which
/// an update of the norm is not trusted.
pub const DOWNDATE_FLOOR: u64 = 0x3E50_0000_0000_0000;

/// Decides whether the norm of a remaining column must be computed again
/// from the column itself. After a step, the norm is brought up to date by
/// taking out the part of the column that the step used up. `kept` is the
/// share that is left, measured against the norm when it was last computed
/// from the column. Where that share does not exceed the floor, the update
/// has cancelled most of the digits and is not trusted; a share that is NaN
/// is not trusted either.
pub fn downdate_is_unreliable(kept: u64) -> (r: bool)
    ensures
        r == !exceeds(kept, DOWNDATE_FLOOR),
{
    !gt(kept, DOWNDATE_FLOOR)
}

/// The number of leading diagonal entries whose magnitude exceeds the
/// threshold, counted among the first `upto` entries: the count stops at the
/// first entry that does not.
pub open spec fn leading_above(diagonal: Seq<u64>, threshold: u64, upto: int) -> int
    decreases upto,
{
    if upto <= 0 {
        0
    } else {
        let before = leading_above(diagonal, threshold, upto - 1);
        if before == upto - 1 && exceeds(magnitude(diagonal[upto - 1]), threshold) {
            upto
        } else {
            before
        }
    }
}

/// The count is the length of the longest run of entries from the start that
/// all exceed the threshold: every entry before it does, and the entry at it,
/// if there is one, does not.
pub proof fn leading_above_is_longest_prefix(diagonal: Seq<u64>, threshold: u64, upto: int)
    requires
        0 <= upto <= diagonal.len(),
    ensures
        0 <= leading_above(diagonal, threshold, upto) <= upto,
        forall|i: int| 0 <= i < leading_above(diagonal, threshold, upto) ==> exceeds(magnitude(#[trigger] diagonal[i]), threshold),
        leading_above(diagonal, threshold, upto) < upto ==> !exceeds(
            magnitude(diagonal[leading_above(diagonal, threshold, upto)]),
            threshold,
        ),
    decreases upto,
{
    if upto > 0 {
        leading_above_is_longest_prefix(diagonal, threshold, upto - 1);
    }
}

/// Estimates the numerical rank from the diagonal of the triangular factor,
/// taken in pivoted order, and the threshold (the tolerance times the
/// magnitude of the first diagonal entry): the number of leading entries
/// whose magnitude exceeds the threshold.
pub fn estimate_rank(diagonal: &Vec<u64>, threshold: u64) -> (rank: usize)
    ensures
        rank == leading_above(diagonal@, threshold, diagonal@.len() as int),
        rank <= diagonal@.len(),
{
    let mut rank: usize = 0;
    let mut i: usize = 0;
    while i < diagonal.len()
        invariant
            i <= diagonal@.len(),
            rank <= i,
            rank == leading_above(diagonal@, threshold, i as int),
        decreases diagonal@.len() - i,
    {
        if rank == i && gt(abs(diagonal[i]), threshold) {
            rank = i + 1;
        }
        i = i + 1;
    }
    rank
}

/// The smaller of the two.
pub open spec fn smaller(a: nat, b: nat) -> nat {
    if a <= b {
        a
    } else {
        b
    }
}

/// `order` with the entries at `a` and `b` exchanged.
pub open spec fn exchanged_order(order: Seq<usize>, a: int, b: int) -> Seq<usize> {
    order.update(a, order[b]).update(b, order[a])
}

/// Exchanging two entries of a permutation leaves a permutation.
pub proof fn exchange_keeps_permutation(order: Seq<usize>, a: int, b: int)
    requires
        is_permutation(order),
        0 <= a < order.len(),
        0 <= b < order.len(),
    ensures
        is_permutation(exchanged_order(order, a, b)),
{
    let after = exchanged_order(order, a, b);
    assert forall|i: int| 0 <= i < after.len() implies (#[trigger] after[i]) < after.len() by {
        assert(after[i] == order[exchanged(i, a, b)]);
    }
    assert forall|i: int, j: int| 0 <= i < j < after.len() implies after[i] != after[j] by {
        assert(after[i] == order[exchanged(i, a, b)]);
        assert(after[j] == order[exchanged(j, a, b)]);
    }
}

/// Exchanges the entries at `a` and `b` of a pivot order or of a list of
/// column norms.
pub fn exchange_entries<T: Copy>(entries: &mut Vec<T>, a: usize, b: usize)
    requires
        a < old(entries)@.len(),
        b < old(entries)@.len(),
    ensures
        final(entries)@ == old(entries)@.update(a as int, old(entries)@[b as int]).update(
            b as int,
            old(entries)@[a as int],
        ),
{
    let left: T = entries[a];
    let right: T = entries[b];
    entries.set(a, right);
    entries.set(b, left);
}

/// A QR decomposition with column pivoting, while it is computed and after.
///
/// `r` starts as a copy of the matrix and ends with the triangular factor on
/// and above its diagonal; `q` has a row for each row of the matrix and takes
/// the reflectors; `pivot` tells for each position the column of the matrix
/// that now stands there; `rank` is the number of leading columns that count
/// as independent.
#[derive(Debug, PartialEq)]
pub struct QrResult {
    pub pivot: Vec<usize>,
    pub q: RealMatrix,
    pub r: RealMatrix,
    pub rank: usize,
}

impl QrResult {
    /// The reflectors have the rows of the triangular factor, the pivot order
    /// is a permutation of its columns, and the rank does not exceed the
    /// number of its rows nor of its columns.
    pub open spec fn wf(&self) -> bool {
        &&& self.q.rows() == self.r.rows()
        &&& self.pivot@.len() == self.r.cols()
        &&& is_permutation(self.pivot@)
        &&& self.rank <= smaller(self.r.rows(), self.r.cols())
    }

    /// The state before the first step, over the reflector store `q` and the
    /// working copy `r` of the matrix: the identity pivot order and rank
    /// zero. The two must have the same number of rows.
    pub fn new(q: RealMatrix, r: RealMatrix) -> (res: Result<QrResult, LeastSquaresError>)
        ensures
            match res {
                Ok(qr) => {
                    &&& q.rows() == r.rows()
                    &&& qr.q == q
                    &&& qr.r == r
                    &&& qr.rank == 0
                    &&& qr.pivot@.len() == r.cols()
                    &&& forall|i: int| 0 <= i < r.cols() ==> qr.pivot@[i] == i
                    &&& qr.wf()
                },
                Err(e) => {
                    &&& q.rows() != r.rows()
                    &&& e == (LeastSquaresError::DimensionMismatch {
                        expected_rows: r.rows() as usize,
                        expected_cols: q.cols() as usize,
                        found_rows: q.rows() as usize,
                        found_cols: q.cols() as usize,
                    })
                },
            },
    {
        let q_shape: [usize; 2] = q.shape();
        let r_shape: [usize; 2] = r.shape();
        if q_shape[0] != r_shape[0] {
            return Err(
                LeastSquaresError::DimensionMismatch {
                    expected_rows: r_shape[0],
                    expected_cols: q_shape[1],
                    found_rows: q_shape[0],
                    found_cols: q_shape[1],
                },
            );
        }
        let pivot: Vec<usize> = identity_pivot(r_shape[1]);
        Ok(QrResult { pivot, q, r, rank: 0 })
    }

    /// The state before the first step of the decomposition of `x`: a copy of
    /// `x` to work on, a zero-filled reflector store with a column for each
    /// pivot step, the identity pivot order and rank zero.
    pub fn start(x: &RealMatrix) -> (res: Result<QrResult, LeastSquaresError>)
        ensures
            match res {
                Ok(qr) => {
                    &&& shape_fits(x.rows(), smaller(x.rows(), x.cols()))
                    &&& qr.wf()
                    &&& qr.rank == 0
                    &&& qr.r.same_as(x)
                    &&& qr.r.row_major() == x.row_major()
                    &&& qr.q.row_major()
                    &&& qr.q.rows() == x.rows()
                    &&& qr.q.cols() == smaller(x.rows(), x.cols())
                    &&& qr.q.cells() == Seq::new(qr.q.rows() * qr.q.cols(), |k: int| 0u64)
                    &&& qr.pivot@.len() == x.cols()
                    &&& forall|i: int| 0 <= i < x.cols() ==> qr.pivot@[i] == i
                },
                Err(e) => {
                    &&& !shape_fits(x.rows(), smaller(x.rows(), x.cols()))
                    &&& e == LeastSquaresError::MemoryAllocationFailure
                },
            },
    {
        let shape: [usize; 2] = x.shape();
        let steps: usize = if shape[0] <= shape[1] {
            shape[0]
        } else {
            shape[1]
        };
        if !RealMatrix::can_hold(shape[0], steps) {
            return Err(LeastSquaresError::MemoryAllocationFailure);
        }
        let q: RealMatrix = RealMatrix::with_shape(shape[0], steps);
        let r: RealMatrix = x.clone();
        QrResult::new(q, r)
    }

    /// Tests whether the state is one that a decomposition can be in (see
    /// `wf`).
    pub fn is_valid(&self) -> (r: bool)
        ensures
            r == self.wf(),
    {
        let q_rows: usize = self.q.n_rows();
        let shape: [usize; 2] = self.r.shape();
        let limit: usize = if shape[0] <= shape[1] {
            shape[0]
        } else {
            shape[1]
        };
        q_rows == shape[0] && self.pivot.len() == shape[1] && self.rank <= limit && is_pivot_order(
            &self.pivot,
        )
    }

    /// Exchanges positions `a` and `b`: the two columns of the working
    /// matrix, and the two entries of the pivot order that record where they
    /// came from.
    pub fn exchange(&mut self, a: usize, b: usize)
        requires
            old(self).wf(),
            a < old(self).r.cols(),
            b < old(self).r.cols(),
        ensures
            final(self).wf(),
            final(self).pivot@ == exchanged_order(old(self).pivot@, a as int, b as int),
            final(self).q == old(self).q,
            final(self).rank == old(self).rank,
            final(self).r.rows() == old(self).r.rows(),
            final(self).r.cols() == old(self).r.cols(),
            final(self).r.row_major() == old(self).r.row_major(),
            forall|i: int, j: int|
                0 <= i < old(self).r.rows() && 0 <= j < old(self).r.cols() ==> #[trigger] final(self).r.at(i, j)
                    == old(self).r.at(i, exchanged(j, a as int, b as int)),
    {
        proof {
            exchange_keeps_permutation(self.pivot@, a as int, b as int);
        }
        self.r.swap_columns(a, b);
        exchange_entries(&mut self.pivot, a, b);
    }

    /// The first part of a pivot step: among the positions `step ..`, selects
    /// the column whose remaining norm is largest (the first of several), and
    /// exchanges it with the column at `step`, in the working matrix, in the
    /// pivot order and in the norms. Returns the position it was found at.
    pub fn pivot_step(&mut self, norms: &mut Vec<u64>, step: usize) -> (chosen: usize)
        requires
            old(self).wf(),
            old(norms)@.len() == old(self).r.cols(),
            step < old(self).r.cols(),
        ensures
            chosen == pivot_of(old(norms)@, step as int, old(norms)@.len() as int),
            step <= chosen < old(self).r.cols(),
            final(norms)@ == old(norms)@.update(step as int, old(norms)@[chosen as int]).update(
                chosen as int,
                old(norms)@[step as int],
            ),
            final(self).wf(),
            final(self).pivot@ == exchanged_order(old(self).pivot@, step as int, chosen as int),
            final(self).q == old(self).q,
            final(self).rank == old(self).rank,
            final(self).r.rows() == old(self).r.rows(),
            final(self).r.cols() == old(self).r.cols(),
            final(self).r.row_major() == old(self).r.row_major(),
            forall|i: int, j: int|
                0 <= i < old(self).r.rows() && 0 <= j < old(self).r.cols() ==> #[trigger] final(self).r.at(i, j)
                    == old(self).r.at(i, exchanged(j, step as int, chosen as int)),
    {
        let chosen: usize = select_pivot(norms, step);
        self.exchange(step, chosen);
        exchange_entries(norms, step, chosen);
        chosen
    }

    /// The diagonal of the triangular factor, in pivoted order.
    pub fn diagonal(&self) -> (d: Vec<u64>)
        ensures
            d@.len() == smaller(self.r.rows(), self.r.cols()),
            forall|i: int| 0 <= i < d@.len() ==> d@[i] == self.r.at(i, i),
    {
        let shape: [usize; 2] = self.r.shape();
        let n: usize = if shape[0] <= shape[1] {
            shape[0]
        } else {
            shape[1]
        };
        let mut d: Vec<u64> = Vec::new();
        let mut i: usize = 0;
        while i < n
            invariant
                i <= n,
                n == smaller(self.r.rows(), self.r.cols()),
                d@.len() == i,
                forall|k: int| 0 <= k < i ==> d@[k] == self.r.at(k, k),
            decreases n - i,
        {
            d.push(self.r.get(i, i));
            i = i + 1;
        }
        d
    }

    /// Sets the rank to the number of leading diagonal entries of the
    /// triangular factor whose magnitude exceeds the threshold.
    pub fn set_rank(&mut self, threshold: u64)
        requires
            old(self).wf(),
        ensures
            final(self).wf(),
            final(self).pivot == old(self).pivot,
            final(self).q == old(self).q,
            final(self).r == old(self).r,
            final(self).rank == rank_of(&old(self).r, threshold),
    {
        let d: Vec<u64> = self.diagonal();
        proof {
            assert(d@ =~= diagonal_of(&self.r));
        }
        self.rank = estimate_rank(&d, threshold);
    }

    /// The scale that the tolerance is relative to: the magnitude of the
    /// first diagonal entry of the triangular factor, which pivoting makes
    /// the largest. A matrix without rows or without columns has no diagonal;
    /// its scale is zero.
    pub fn scale(&self) -> (s: u64)
        ensures
            s == scale_of(&self.r),
    {
        let shape: [usize; 2] = self.r.shape();
        if shape[0] > 0 && shape[1] > 0 {
            abs(self.r.get(0, 0))
        } else {
            ZERO
        }
    }

    /// Tests whether the rank is the one that the diagonal of the triangular
    /// factor and the threshold give.
    pub fn has_rank_of(&self, threshold: u64) -> (r: bool)
        ensures
            r == (self.rank == rank_of(&self.r, threshold)),
    {
        let d: Vec<u64> = self.diagonal();
        proof {
            assert(d@ =~= diagonal_of(&self.r));
        }
        self.rank == estimate_rank(&d, threshold)
    }

    /// Tests that a response matrix has a row for each row of the decomposed
    /// matrix.
    pub fn check_response(&self, y: &RealMatrix) -> (res: Result<(), LeastSquaresError>)
        ensures
            match res {
                Ok(_) => y.rows() == self.r.rows(),
                Err(e) => {
                    &&& y.rows() != self.r.rows()
                    &&& e == (LeastSquaresError::DimensionMismatch {
                        expected_rows: self.r.rows() as usize,
                        expected_cols: y.cols() as usize,
                        found_rows: y.rows() as usize,
                        found_cols: y.cols() as usize,
                    })
                },
            },
    {
        let y_shape: [usize; 2] = y.shape();
        let n_rows: usize = self.r.n_rows();
        if y_shape[0] == n_rows {
            Ok(())
        } else {
            Err(
                LeastSquaresError::DimensionMismatch {
                    expected_rows: n_rows,
                    expected_cols: y_shape[1],
                    found_rows: y_shape[0],
                    found_cols: y_shape[1],
                },
            )
        }
    }

    /// Undoes the pivoting on the coefficients. `pivoted` holds a row of
    /// coefficients for each position of the pivot order. The result holds
    /// the row of position `i` at the row of the column that stands at `i`,
    /// for the positions below the rank; the rows of the columns beyond the
    /// rank are zero. It is laid out as `pivoted` is.
    pub fn coefficients(&self, pivoted: &RealMatrix) -> (res: Result<RealMatrix, LeastSquaresError>)
        requires
            self.wf(),
        ensures
            match res {
                Ok(b) => {
                    &&& pivoted.rows() == self.r.cols()
                    &&& b.rows() == pivoted.rows()
                    &&& b.cols() == pivoted.cols()
                    &&& b.row_major() == pivoted.row_major()
                    &&& b.cells() == unpivoted_cells(pivoted, self.pivot@, self.rank as int)
                    &&& forall|i: int, j: int|
                        0 <= i < b.rows() && 0 <= j < b.cols() ==> b.at(self.pivot@[i] as int, j)
                            == #[trigger] unpivoted_cell(pivoted, self.rank as int, i, j)
                },
                Err(e) => {
                    &&& pivoted.rows() != self.r.cols()
                    &&& e == (LeastSquaresError::DimensionMismatch {
                        expected_rows: self.r.cols() as usize,
                        expected_cols: pivoted.cols() as usize,
                        found_rows: pivoted.rows() as usize,
                        found_cols: pivoted.cols() as usize,
                    })
                },
            },
    {
        let shape: [usize; 2] = pivoted.shape();
        let n_rows: usize = shape[0];
        let n_cols: usize = shape[1];
        let expected: usize = self.r.n_cols();
        if n_rows != expected {
            return Err(
                LeastSquaresError::DimensionMismatch {
                    expected_rows: expected,
                    expected_cols: n_cols,
                    found_rows: n_rows,
                    found_cols: n_cols,
                },
            );
        }
        let mut b: RealMatrix = pivoted.clone();
        let mut i: usize = 0;
        while i < n_rows
            invariant
                i <= n_rows,
                self.wf(),
                n_rows == pivoted.rows(),
                n_cols == pivoted.cols(),
                n_rows == self.pivot@.len(),
                b.rows() == n_rows,
                b.cols() == n_cols,
                b.cells().len() == n_rows * n_cols,
                b.row_major() == pivoted.row_major(),
                forall|k: int, j: int|
                    0 <= k < i && 0 <= j < n_cols ==> b.at(self.pivot@[k] as int, j) == #[trigger] unpivoted_cell(
                        pivoted,
                        self.rank as int,
                        k,
                        j,
                    ),
            decreases n_rows - i,
        {
            let target: usize = self.pivot[i];
            let mut j: usize = 0;
            while j < n_cols
                invariant
                    i < n_rows,
                    j <= n_cols,
                    self.wf(),
                    n_rows == pivoted.rows(),
                    n_cols == pivoted.cols(),
                    n_rows == self.pivot@.len(),
                    target == self.pivot@[i as int],
                    target < n_rows,
                    b.rows() == n_rows,
                    b.cols() == n_cols,
                    b.cells().len() == n_rows * n_cols,
                    b.row_major() == pivoted.row_major(),
                    forall|k: int, l: int|
                        0 <= k < i && 0 <= l < n_cols ==> b.at(self.pivot@[k] as int, l)
                            == #[trigger] unpivoted_cell(pivoted, self.rank as int, k, l),
                    forall|l: int|
                        0 <= l < j ==> b.at(target as int, l) == #[trigger] unpivoted_cell(
                            pivoted,
                            self.rank as int,
                            i as int,
                            l,
                        ),
                decreases n_cols - j,
            {
                let value: u64 = if i < self.rank {
                    pivoted.get(i, j)
                } else {
                    ZERO
                };
                let ghost entry = b;
                proof {
                    cell_index_in_range(target as int, j as int, n_rows as int, n_cols as int);
                }
                b.set(target, j, value);
                proof {
                    assert forall|k: int, l: int| 0 <= k < i && 0 <= l < n_cols implies b.at(
                        self.pivot@[k] as int,
                        l,
                    ) == #[trigger] unpivoted_cell(pivoted, self.rank as int, k, l) by {
                        assert(self.pivot@[k] != self.pivot@[i as int]);
                        assert(self.pivot@[k] < n_rows);
                        cell_index_in_range(self.pivot@[k] as int, l, n_rows as int, n_cols as int);
                        cell_index_is_injective(
                            self.pivot@[k] as int,
                            l,
                            target as int,
                            j as int,
                            n_cols as int,
                        );
                        assert(entry.at(self.pivot@[k] as int, l) == unpivoted_cell(
                            pivoted,
                            self.rank as int,
                            k,
                            l,
                        ));
                    }
                    assert forall|l: int| 0 <= l < j + 1 implies b.at(target as int, l)
                        == #[trigger] unpivoted_cell(pivoted, self.rank as int, i as int, l) by {
                        cell_index_in_range(target as int, l, n_rows as int, n_cols as int);
                        cell_index_is_injective(target as int, l, target as int, j as int, n_cols as int);
                        if l < j {
                            assert(entry.at(target as int, l) == unpivoted_cell(
                                pivoted,
                                self.rank as int,
                                i as int,
                                l,
                            ));
                        }
                    }
                }
                j = j + 1;
            }
            i = i + 1;
        }
        proof {
            let expected = unpivoted_cells(pivoted, self.pivot@, self.rank as int);
            assert forall|k: int| 0 <= k < b.cells().len() implies b.cells()[k] == expected[k] by {
                cell_index_splits(k, n_rows as int, n_cols as int);
                let row = k / (n_cols as int);
                let j = k % (n_cols as int);
                position_of_is_the_position(self.pivot@, row);
                let at = position_of(self.pivot@, row);
                assert(b.at(self.pivot@[at] as int, j) == unpivoted_cell(pivoted, self.rank as int, at, j));
            }
            assert(b.cells() =~= expected);
        }
        Ok(b)
    }
}

/// The position at which a column stands in a pivot order.
pub open spec fn position_of(order: Seq<usize>, column: int) -> int {
    choose|i: int| 0 <= i < order.len() && order[i] == column
}

/// Every column stands at its position in a pivot order, and at no other.
pub proof fn position_of_is_the_position(order: Seq<usize>, column: int)
    requires
        is_permutation(order),
        0 <= column < order.len(),
    ensures
        0 <= position_of(order, column) < order.len(),
        order[position_of(order, column)] == column,
        forall|i: int| 0 <= i < order.len() && order[i] == column ==> i == position_of(order, column),
{
    pivot_order_is_onto(order, column);
    let at = position_of(order, column);
    assert forall|i: int| 0 <= i < order.len() && order[i] == column implies i == at by {
        if i < at {
            assert(order[i] != order[at]);
        } else if at < i {
            assert(order[at] != order[i]);
        }
    }
}

/// The cells of the coefficients with the pivoting undone, row by row: the
/// row of a column is the pivoted row of the position at which the column
/// stands, where that position is below the rank, and zero from the rank on.
pub open spec fn unpivoted_cells(pivoted: &RealMatrix, order: Seq<usize>, rank: int) -> Seq<u64> {
    Seq::new(
        pivoted.rows() * pivoted.cols(),
        |k: int|
            unpivoted_cell(
                pivoted,
                rank,
                position_of(order, k / (pivoted.cols() as int)),
                k % (pivoted.cols() as int),
            ),
    )
}

/// The coefficient that belongs to position `i` of the pivot order, for
/// response `j`: the pivoted coefficient below the rank, zero from the rank
/// on.
pub open spec fn unpivoted_cell(pivoted: &RealMatrix, rank: int, i: int, j: int) -> u64 {
    if i < rank {
        pivoted.at(i, j)
    } else {
        ZERO
    }
}

/// The diagonal of a matrix: the cells `(i, i)`, as many as the smaller of its
/// two dimensions.
pub open spec fn diagonal_of(r: &RealMatrix) -> Seq<u64> {
    Seq::new(smaller(r.rows(), r.cols()), |i: int| r.at(i, i))
}

/// The magnitude of the first diagonal entry of `r`; zero where `r` has no
/// diagonal.
pub open spec fn scale_of(r: &RealMatrix) -> u64 {
    if r.rows() > 0 && r.cols() > 0 {
        magnitude(r.at(0, 0))
    } else {
        ZERO
    }
}

/// The rank that the diagonal of `r` and the threshold give.
pub open spec fn rank_of(r: &RealMatrix, threshold: u64) -> int {
    leading_above(diagonal_of(r), threshold, smaller(r.rows(), r.cols()) as int)
}

/// A column that the rank leaves out has coefficients that are exactly zero:
/// in the coefficients with the pivoting undone, the row of the column that
/// stands at any position from the rank on holds the encoding of zero for
/// every response, whatever the pivoted coefficients hold.
pub proof fn dropped_columns_have_zero_coefficients(qr: QrResult, pivoted: RealMatrix, i: int, j: int)
    requires
        qr.wf(),
        pivoted.rows() == qr.r.cols(),
        qr.rank <= i < pivoted.rows(),
        0 <= j < pivoted.cols(),
    ensures
        0 <= qr.pivot@[i] * pivoted.cols() + j < pivoted.rows() * pivoted.cols(),
        unpivoted_cells(&pivoted, qr.pivot@, qr.rank as int)[qr.pivot@[i] * pivoted.cols() + j] == ZERO,
        crate::binary64::zero(ZERO),
{
    let column = qr.pivot@[i] as int;
    let n_cols = pivoted.cols() as int;
    assert(0 <= column < pivoted.rows());
    cell_index_in_range(column, j, pivoted.rows() as int, n_cols);
    vstd::arithmetic::div_mod::lemma_fundamental_div_mod_converse(column * n_cols + j, n_cols, column, j);
    position_of_is_the_position(qr.pivot@, column);
}

/// A column that the rank keeps has the coefficients that were found for its
/// position: in the coefficients with the pivoting undone, the row of the
/// column that stands at a position below the rank is the pivoted row of that
/// position.
pub proof fn kept_columns_have_their_coefficients(qr: QrResult, pivoted: RealMatrix, i: int, j: int)
    requires
        qr.wf(),
        pivoted.rows() == qr.r.cols(),
        0 <= i < qr.rank,
        0 <= j < pivoted.cols(),
    ensures
        0 <= qr.pivot@[i] * pivoted.cols() + j < pivoted.rows() * pivoted.cols(),
        unpivoted_cells(&pivoted, qr.pivot@, qr.rank as int)[qr.pivot@[i] * pivoted.cols() + j] == pivoted.at(i, j),
{
    let column = qr.pivot@[i] as int;
    let n_cols = pivoted.cols() as int;
    assert(0 <= column < pivoted.rows());
    cell_index_in_range(column, j, pivoted.rows() as int, n_cols);
    vstd::arithmetic::div_mod::lemma_fundamental_div_mod_converse(column * n_cols + j, n_cols, column, j);
    position_of_is_the_position(qr.pivot@, column);
}

/// Where every one of the first `upto` diagonal entries exceeds the threshold
/// in magnitude, the rank is `upto`: no column is left out.
pub proof fn full_rank_when_all_exceed(diagonal: Seq<u64>, threshold: u64, upto: int)
    requires
        0 <= upto <= diagonal.len(),
        forall|i: int| 0 <= i < upto ==> exceeds(magnitude(#[trigger] diagonal[i]), threshold),
    ensures
        leading_above(diagonal, threshold, upto) == upto,
    decreases upto,
{
    if upto > 0 {
        full_rank_when_all_exceed(diagonal, threshold, upto - 1);
    }
}

/// Where the first diagonal entry is zero, the rank is zero whatever the
/// threshold: a zero magnitude exceeds no threshold that is not negative.
pub proof fn zero_matrix_has_rank_zero(diagonal: Seq<u64>, threshold: u64, upto: int)
    requires
        0 < upto <= diagonal.len(),
        crate::binary64::zero(diagonal[0]),
        !crate::binary64::sign_negative(threshold) || crate::binary64::zero(threshold) || nan(threshold),
    ensures
        leading_above(diagonal, threshold, upto) == 0,
    decreases upto,
{
    if upto > 1 {
        zero_matrix_has_rank_zero(diagonal, threshold, upto - 1);
    } else {
        assert(leading_above(diagonal, threshold, 0) == 0);
    }
}

/// A pivot order reaches every column: each index below its length stands at
/// some position. With this, coefficients with the pivoting undone are fixed
/// in every row.
pub proof fn pivot_order_is_onto(order: Seq<usize>, column: int)
    requires
        is_permutation(order),
        0 <= column < order.len(),
    ensures
        exists|i: int| 0 <= i < order.len() && order[i] == column,
{
    let n = order.len();
    let positions = order.map_values(|v: usize| v as int);
    assert(positions.no_duplicates()) by {
        assert forall|i: int, j: int| 0 <= i < positions.len() && 0 <= j < positions.len() && i != j implies positions[i]
            != positions[j] by {
            if i < j {
                assert(order[i] != order[j]);
            } else {
                assert(order[j] != order[i]);
            }
        }
    }
    positions.unique_seq_to_set();
    let reached = positions.to_set();
    let all = vstd::set_lib::set_int_range(0, n as int);
    vstd::set_lib::lemma_int_range(0, n as int);
    assert(reached.subset_of(all)) by {
        assert forall|v: int| reached.contains(v) implies all.contains(v) by {
            let i = choose|i: int| 0 <= i < positions.len() && positions[i] == v;
            assert(order[i] < n);
        }
    }
    vstd::set_lib::lemma_subset_equality(reached, all);
    assert(all.contains(column));
    assert(reached.contains(column));
    let i = choose|i: int| 0 <= i < positions.len() && positions[i] == column;
    assert(order[i] == column);
}

} // verus!
