//! 4x4 matrices of scalars.
use vstd::prelude::*;
use vstd::std_specs::cmp::PartialEqSpecImpl;
use crate::scalar::Scalar;

verus! {

/// A 4x4 matrix, row by row. Two matrices are `==` when their entries are
/// equal as numbers.
#[derive(Clone, Copy, Debug)]
pub struct Matrix(pub [[Scalar; 4]; 4]);

impl PartialEq for Matrix {
    fn eq(&self, other: &Self) -> (r: bool) {
        let mut i: usize = 0;
        while i < 4
            invariant
                i <= 4,
                forall|a: int, b: int|
                    0 <= a < i && 0 <= b < 4 ==> (#[trigger] self.at(a, b)).same_spec(
                        other.at(a, b),
                    ),
            decreases 4 - i,
        {
            let mut j: usize = 0;
            while j < 4
                invariant
                    i < 4,
                    j <= 4,
                    forall|a: int, b: int|
                        0 <= a < i && 0 <= b < 4 ==> (#[trigger] self.at(a, b)).same_spec(
                            other.at(a, b),
                        ),
                    forall|b: int|
                        0 <= b < j ==> (#[trigger] self.at(i as int, b)).same_spec(
                            other.at(i as int, b),
                        ),
                decreases 4 - j,
            {
                if !self.0[i][j].same(other.0[i][j]) {
                    assert(!self.at(i as int, j as int).same_spec(other.at(i as int, j as int)));
                    return false;
                }
                j += 1;
            }
            i += 1;
        }
        true
    }
}

impl PartialEqSpecImpl for Matrix {
    open spec fn obeys_eq_spec() -> bool {
        true
    }

    open spec fn eq_spec(&self, other: &Self) -> bool {
        forall|a: int, b: int|
            0 <= a < 4 && 0 <= b < 4 ==> (#[trigger] self.at(a, b)).same_spec(other.at(a, b))
    }
}

impl Matrix {
    /// The entry in row `i`, column `j`.
    pub open spec fn at(self, i: int, j: int) -> Scalar {
        self.0[i][j]
    }

    /// Whether this is the identity: ones on the diagonal, zeros elsewhere.
    pub open spec fn is_identity(self) -> bool {
        forall|i: int, j: int|
            0 <= i < 4 && 0 <= j < 4 ==> (#[trigger] self.at(i, j)) == if i == j {
                Scalar { bits: crate::scalar::ONE_BITS }
            } else {
                Scalar { bits: 0 }
            }
    }

    /// The identity.
    pub fn id() -> (m: Matrix)
        ensures
            m.is_identity(),
    {
        let o: Scalar = Scalar::zero();
        let l: Scalar = Scalar::one();
        Matrix([[l, o, o, o], [o, l, o, o], [o, o, l, o], [o, o, o, l]])
    }

    /// The matrix mirrored at its diagonal.
    pub fn transpose(self) -> (t: Matrix)
        ensures
            forall|i: int, j: int| 0 <= i < 4 && 0 <= j < 4 ==> (#[trigger] t.at(i, j)) == self.at(j, i),
    {
        let m = &self.0;
        Matrix(
            [
                [m[0][0], m[1][0], m[2][0], m[3][0]],
                [m[0][1], m[1][1], m[2][1], m[3][1]],
                [m[0][2], m[1][2], m[2][2], m[3][2]],
                [m[0][3], m[1][3], m[2][3], m[3][3]],
            ],
        )
    }
}

/// The matrix cannot be inverted: a pivot of the elimination is zero.
#[derive(Clone, Copy, Debug, PartialEq, Eq, Structural)]
pub struct SingularMatrix;

/// An inversion by Gauss-Jordan elimination with full pivoting, between two of
/// its rounds. Each round the caller asks for the `pivot`, scales the pivot
/// row and clears the pivot column in `m`, and comes back; after four rounds
/// `finish` gives the inverse.
#[derive(Clone, Copy, Debug)]
pub struct Elimination {
    /// The matrix as the rounds so far have left it.
    pub m: Matrix,
    /// For each column, how often a pivot was taken from it.
    pub used: [usize; 4],
    /// For each past round, the row in which its pivot was found.
    pub rows: [usize; 4],
    /// For each past round, the column in which its pivot was found.
    pub cols: [usize; 4],
    /// The number of past rounds.
    pub round: usize,
}

/// Whether the entry of row `j` and column `k` may serve as the next pivot: it
/// is a number, its row has not given exactly one pivot and its column none.
pub open spec fn candidate(m: Matrix, used: [usize; 4], j: int, k: int) -> bool {
    &&& 0 <= j < 4
    &&& 0 <= k < 4
    &&& used[j] != 1
    &&& used[k] == 0
    &&& !m.at(j, k).nan()
}

/// Whether the cell `(r, c)` is the pivot of the next round: the candidate of
/// largest magnitude, the last of them in reading order where several are as
/// large; or the first cell of the matrix when there is no candidate.
pub open spec fn is_pivot(m: Matrix, used: [usize; 4], r: int, c: int) -> bool {
    if exists|j: int, k: int| candidate(m, used, j, k) {
        &&& candidate(m, used, r, c)
        &&& forall|j: int, k: int| #[trigger]
            candidate(m, used, j, k) ==> {
                &&& m.at(j, k).magnitude() <= m.at(r, c).magnitude()
                &&& m.at(j, k).magnitude() == m.at(r, c).magnitude() ==> 4 * j + k <= 4 * r + c
            }
    } else {
        r == 0 && c == 0
    }
}

/// Whether `out` is `m` with the rows `a` and `b` exchanged.
pub open spec fn is_row_swap(out: Matrix, m: Matrix, a: int, b: int) -> bool {
    forall|i: int, j: int|
        0 <= i < 4 && 0 <= j < 4 ==> (#[trigger] out.at(i, j)) == m.at(
            if i == a {
                b
            } else if i == b {
                a
            } else {
                i
            },
            j,
        )
}

/// The column of the matrix that `finish` starts from which ends up as column
/// `j`, when the column exchanges of the rounds `k` and later are undone, the
/// last round first.
pub open spec fn origin_from(rows: [usize; 4], cols: [usize; 4], k: int, n: int, j: int) -> int
    decreases n - k,
{
    if k >= n {
        j
    } else {
        origin_from(
            rows,
            cols,
            k + 1,
            n,
            if j == rows[k] as int {
                cols[k] as int
            } else if j == cols[k] as int {
                rows[k] as int
            } else {
                j
            },
        )
    }
}

/// The column that `origin_from` names is a column of the matrix.
pub proof fn lemma_origin_in_range(rows: [usize; 4], cols: [usize; 4], k: int, n: int, j: int)
    requires
        0 <= k <= n <= 4,
        0 <= j < 4,
        forall|i: int| 0 <= i < n ==> rows[i] < 4 && cols[i] < 4,
    ensures
        0 <= origin_from(rows, cols, k, n, j) < 4,
    decreases n - k,
{
    if k < n {
        let next = if j == rows[k] as int {
            cols[k] as int
        } else if j == cols[k] as int {
            rows[k] as int
        } else {
            j
        };
        lemma_origin_in_range(rows, cols, k + 1, n, next);
    }
}

/// Undoing the exchanges only rearranges the columns: two different columns of
/// the result come from two different columns of the matrix.
pub proof fn lemma_finish_rearranges_columns(
    rows: [usize; 4],
    cols: [usize; 4],
    k: int,
    n: int,
    i: int,
    j: int,
)
    requires
        0 <= k <= n <= 4,
        i != j,
    ensures
        origin_from(rows, cols, k, n, i) != origin_from(rows, cols, k, n, j),
    decreases n - k,
{
    if k < n {
        let a = rows[k] as int;
        let b = cols[k] as int;
        let next_i = if i == a {
            b
        } else if i == b {
            a
        } else {
            i
        };
        let next_j = if j == a {
            b
        } else if j == b {
            a
        } else {
            j
        };
        lemma_finish_rearranges_columns(rows, cols, k + 1, n, next_i, next_j);
    }
}

impl Matrix {
    /// Begins the inversion of this matrix.
    pub fn inverse(self) -> (e: Elimination)
        ensures
            e.wf(),
            e.m == self,
            e.round == 0,
            forall|k: int| 0 <= k < 4 ==> e.used[k] == 0,
    {
        Elimination { m: self, used: [0, 0, 0, 0], rows: [0, 0, 0, 0], cols: [0, 0, 0, 0], round: 0 }
    }

    /// The matrix with the columns `a` and `b` exchanged.
    fn swap_columns(self, a: usize, b: usize) -> (out: Matrix)
        requires
            a < 4,
            b < 4,
        ensures
            forall|i: int, j: int|
                0 <= i < 4 && 0 <= j < 4 ==> (#[trigger] out.at(i, j)) == self.at(
                    i,
                    if j == a as int {
                        b as int
                    } else if j == b as int {
                        a as int
                    } else {
                        j
                    },
                ),
    {
        let mut rows = self.0;
        let mut i: usize = 0;
        while i < 4
            invariant
                i <= 4,
                a < 4,
                b < 4,
                forall|r: int, j: int|
                    0 <= r < 4 && 0 <= j < 4 ==> rows[r][j] == if r < i {
                        self.at(
                            r,
                            if j == a as int {
                                b as int
                            } else if j == b as int {
                                a as int
                            } else {
                                j
                            },
                        )
                    } else {
                        self.at(r, j)
                    },
            decreases 4 - i,
        {
            let mut row = rows[i];
            let x = row[a];
            let y = row[b];
            row[a] = y;
            row[b] = x;
            rows[i] = row;
            i += 1;
        }
        Matrix(rows)
    }
}

impl Elimination {
    /// At most four rounds have passed, no column was counted more often than
    /// there were rounds, and the recorded cells are cells of the matrix.
    pub open spec fn wf(self) -> bool {
        &&& self.round <= 4
        &&& forall|k: int| 0 <= k < 4 ==> self.used[k] <= self.round
        &&& forall|i: int| 0 <= i < self.round ==> self.rows[i] < 4 && self.cols[i] < 4
    }

    /// Opens the next round: finds the pivot, notes its place, and brings it
    /// onto the diagonal by exchanging two rows. Returns the column of the
    /// pivot, or fails when the pivot is zero: the matrix is then singular.
    pub fn pivot(&mut self) -> (found: Result<usize, SingularMatrix>)
        requires
            old(self).wf(),
            old(self).round < 4,
        ensures
            final(self).wf(),
            final(self).round == old(self).round + 1,
            ({
                let r = final(self).rows[old(self).round as int] as int;
                let c = final(self).cols[old(self).round as int] as int;
                &&& is_pivot(old(self).m, old(self).used, r, c)
                &&& is_row_swap(final(self).m, old(self).m, r, c)
                &&& forall|k: int|
                    0 <= k < 4 ==> final(self).used[k] == if k == c {
                        old(self).used[k] + 1
                    } else {
                        old(self).used[k] as int
                    }
                &&& forall|i: int|
                    0 <= i < old(self).round ==> final(self).rows[i] == old(self).rows[i]
                        && final(self).cols[i] == old(self).cols[i]
                &&& found is Err <==> final(self).m.at(c, c).zero_spec()
                &&& found matches Ok(col) ==> col == c
            }),
    {
        let ghost m = self.m;
        let ghost used = self.used;
        let mut big: u64 = 0;
        let mut irow: usize = 0;
        let mut icol: usize = 0;
        let mut any: Ghost<bool> = Ghost(false);
        let mut j: usize = 0;
        while j < 4
            invariant
                j <= 4,
                self.m == m,
                self.used == used,
                irow < 4,
                icol < 4,
                scanned(m, used, 4 * j as int, any@, big, irow as int, icol as int),
            decreases 4 - j,
        {
            let mut k: usize = 0;
            while k < 4
                invariant
                    k <= 4,
                    j < 4,
                    self.m == m,
                    self.used == used,
                    irow < 4,
                    icol < 4,
                    scanned(m, used, 4 * j + k, any@, big, irow as int, icol as int),
                decreases 4 - k,
            {
                let x = self.m.0[j][k];
                let ghost before = (any@, big, irow, icol);
                if self.used[j] != 1 && self.used[k] == 0 && !x.is_nan() && x.abs().to_bits() >= big {
                    big = x.abs().to_bits();
                    irow = j;
                    icol = k;
                    proof {
                        any@ = true;
                    }
                }
                proof {
                    lemma_scan_step(
                        m,
                        used,
                        j as int,
                        k as int,
                        before.0,
                        before.1,
                        before.2 as int,
                        before.3 as int,
                    );
                }
                k += 1;
            }
            j += 1;
        }
        proof {
            lemma_scan_done(m, used, any@, big, irow as int, icol as int);
        }
        self.used[icol] = self.used[icol] + 1;
        if irow != icol {
            let mut rows = self.m.0;
            let upper = rows[irow];
            let lower = rows[icol];
            rows[irow] = lower;
            rows[icol] = upper;
            self.m = Matrix(rows);
        }
        let at: usize = self.round;
        self.rows[at] = irow;
        self.cols[at] = icol;
        self.round = self.round + 1;
        if self.m.0[icol][icol].is_zero() {
            Err(SingularMatrix)
        } else {
            Ok(icol)
        }
    }

    /// Closes the inversion: undoes, the last round first, the exchanges of
    /// rows that brought the pivots onto the diagonal, by exchanging the
    /// columns of the same numbers.
    pub fn finish(self) -> (inverse: Matrix)
        requires
            self.wf(),
        ensures
            forall|i: int, j: int|
                0 <= i < 4 && 0 <= j < 4 ==> (#[trigger] inverse.at(i, j)) == self.m.at(
                    i,
                    origin_from(self.rows, self.cols, 0, self.round as int, j),
                ),
            forall|j: int|
                0 <= j < 4 ==> 0 <= #[trigger] origin_from(
                    self.rows,
                    self.cols,
                    0,
                    self.round as int,
                    j,
                ) < 4,
    {
        proof {
            assert forall|j: int| 0 <= j < 4 implies 0 <= #[trigger] origin_from(
                self.rows,
                self.cols,
                0,
                self.round as int,
                j,
            ) < 4 by {
                lemma_origin_in_range(self.rows, self.cols, 0, self.round as int, j);
            }
        }
        let mut out = self.m;
        let mut k: usize = self.round;
        while k > 0
            invariant
                k <= self.round,
                self.wf(),
                forall|i: int, j: int|
                    0 <= i < 4 && 0 <= j < 4 ==> (#[trigger] out.at(i, j)) == self.m.at(
                        i,
                        origin_from(self.rows, self.cols, k as int, self.round as int, j),
                    ),
            decreases k,
        {
            k -= 1;
            let ghost prev = out;
            if self.rows[k] != self.cols[k] {
                out = out.swap_columns(self.rows[k], self.cols[k]);
            }
            proof {
                assert forall|i: int, j: int| 0 <= i < 4 && 0 <= j < 4 implies (#[trigger] out.at(
                    i,
                    j,
                )) == self.m.at(
                    i,
                    origin_from(self.rows, self.cols, k as int, self.round as int, j),
                ) by {
                    let next = if j == self.rows[k as int] as int {
                        self.cols[k as int] as int
                    } else if j == self.cols[k as int] as int {
                        self.rows[k as int] as int
                    } else {
                        j
                    };
                    assert(out.at(i, j) == prev.at(i, next));
                }
            }
        }
        out
    }
}

/// What the search for the pivot knows after the first `n` cells in reading
/// order: `any` tells whether a candidate was among them, and if so `(r, c)`
/// is the best of them and `big` its magnitude.
spec fn scanned(
    m: Matrix,
    used: [usize; 4],
    n: int,
    any: bool,
    big: u64,
    r: int,
    c: int,
) -> bool {
    &&& any <==> exists|j: int, k: int| candidate(m, used, j, k) && 4 * j + k < n
    &&& any ==> {
        &&& candidate(m, used, r, c)
        &&& 4 * r + c < n
        &&& big == m.at(r, c).magnitude()
        &&& forall|j: int, k: int| #[trigger]
            candidate(m, used, j, k) && 4 * j + k < n ==> {
                &&& m.at(j, k).magnitude() <= big
                &&& m.at(j, k).magnitude() == big ==> 4 * j + k <= 4 * r + c
            }
    }
    &&& !any ==> r == 0 && c == 0 && big == 0
}

proof fn lemma_scan_step(
    m: Matrix,
    used: [usize; 4],
    j: int,
    k: int,
    any: bool,
    big: u64,
    r: int,
    c: int,
)
    requires
        0 <= j < 4,
        0 <= k < 4,
        scanned(m, used, 4 * j + k, any, big, r, c),
    ensures
        candidate(m, used, j, k) && m.at(j, k).magnitude() >= big ==> scanned(
            m,
            used,
            4 * j + k + 1,
            true,
            m.at(j, k).magnitude(),
            j,
            k,
        ),
        !(candidate(m, used, j, k) && m.at(j, k).magnitude() >= big) ==> scanned(
            m,
            used,
            4 * j + k + 1,
            any,
            big,
            r,
            c,
        ),
{
    let n = 4 * j + k;
    if candidate(m, used, j, k) && m.at(j, k).magnitude() >= big {
        assert(candidate(m, used, j, k) && 4 * j + k < n + 1);
        assert forall|j2: int, k2: int| #[trigger]
            candidate(m, used, j2, k2) && 4 * j2 + k2 < n + 1 implies {
            &&& m.at(j2, k2).magnitude() <= m.at(j, k).magnitude()
            &&& m.at(j2, k2).magnitude() == m.at(j, k).magnitude() ==> 4 * j2 + k2 <= 4 * j + k
        } by {
            if 4 * j2 + k2 < n {
                assert(any);
            }
        }
    } else {
        if any {
            assert forall|j2: int, k2: int| #[trigger]
                candidate(m, used, j2, k2) && 4 * j2 + k2 < n + 1 implies {
                &&& m.at(j2, k2).magnitude() <= big
                &&& m.at(j2, k2).magnitude() == big ==> 4 * j2 + k2 <= 4 * r + c
            } by {
                if 4 * j2 + k2 == n {
                    assert(j2 == j && k2 == k);
                }
            }
        } else {
            assert forall|j2: int, k2: int| !(candidate(m, used, j2, k2) && 4 * j2 + k2 < n + 1) by {
                if candidate(m, used, j2, k2) && 4 * j2 + k2 < n + 1 {
                    if 4 * j2 + k2 == n {
                        assert(j2 == j && k2 == k);
                    }
                }
            }
        }
    }
}

proof fn lemma_scan_done(m: Matrix, used: [usize; 4], any: bool, big: u64, r: int, c: int)
    requires
        scanned(m, used, 16, any, big, r, c),
    ensures
        is_pivot(m, used, r, c),
{
    if any {
        let (j, k) = choose|j: int, k: int| candidate(m, used, j, k) && 4 * j + k < 16;
        assert(candidate(m, used, j, k));
    } else {
        assert forall|j: int, k: int| !candidate(m, used, j, k) by {
            if candidate(m, used, j, k) {
                assert(4 * j + k < 16);
            }
        }
    }
}

} // verus!
