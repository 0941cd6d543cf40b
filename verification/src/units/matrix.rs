//! Grids of up to four rows and columns: the layout side of matrix algebra.

use vstd::prelude::*;
use vstd::std_specs::convert::FromSpecImpl;

verus! {

/// Whether `v` is a value that `T::default()` gives. For the number types
/// that is zero.
pub open spec fn is_default<T: Default>(v: T) -> bool {
    call_ensures(T::default, (), v)
}

/// The index in a grid that lands on index `i` once the row or column
/// `removed` is taken out.
pub open spec fn skipping(i: int, removed: int) -> int {
    if i < removed {
        i
    } else {
        i + 1
    }
}

/// A grid of entries, `height` rows by `width` columns, kept in a store of
/// four by four. Entries of the store that a constructor leaves outside the
/// grid have the default value of `T`.
///
/// What the entries are, and how they are added and multiplied, is up to the
/// caller: this type moves entries and never computes with them.
#[derive(Debug, Clone, Copy, PartialEq)]
pub struct Matrix<T> {
    /// Column count
    pub width: usize,
    /// Row count
    pub height: usize,
    /// The store, by row and then by column
    pub data: [[T; 4]; 4],
}

impl<T: Copy + Default> Matrix<T> {
    /// The entry of the store in row `r` and column `c`.
    pub open spec fn at(self, r: int, c: int) -> T {
        self.data[r][c]
    }

    /// A grid of the given size in which every entry of the store has the
    /// default value.
    pub fn new(width: usize, height: usize) -> (m: Matrix<T>)
        ensures
            m.width == width,
            m.height == height,
            forall|r: int, c: int| 0 <= r < 4 && 0 <= c < 4 ==> is_default(#[trigger] m.at(r, c)),
    {
        Matrix {
            width,
            height,
            data: [
                [T::default(), T::default(), T::default(), T::default()],
                [T::default(), T::default(), T::default(), T::default()],
                [T::default(), T::default(), T::default(), T::default()],
                [T::default(), T::default(), T::default(), T::default()],
            ],
        }
    }

    /// The grid with rows and columns exchanged: the entry in row `r` and
    /// column `c` of the grid goes to row `c` and column `r`. The sizes stay
    /// as they are, and the rest of the store has the default value.
    pub fn transpose(&self) -> (m: Matrix<T>)
        requires
            self.width <= 4,
            self.height <= 4,
        ensures
            m.width == self.width,
            m.height == self.height,
            forall|r: int, c: int|
                0 <= r < self.width && 0 <= c < self.height ==> #[trigger] m.at(r, c) == self.at(
                    c,
                    r,
                ),
            forall|r: int, c: int|
                0 <= r < 4 && 0 <= c < 4 && !(r < self.width && c < self.height) ==> is_default(
                    #[trigger] m.at(r, c),
                ),
    {
        let height = self.height;
        let width = self.width;
        let mut return_matrix = Matrix::new(width, height);
        let mut i: usize = 0;
        while i < height
            invariant
                width == self.width,
                height == self.height,
                width <= 4,
                height <= 4,
                i <= height,
                return_matrix.width == width,
                return_matrix.height == height,
                forall|r: int, c: int|
                    0 <= r < width && 0 <= c < i ==> #[trigger] return_matrix.at(r, c) == self.at(
                        c,
                        r,
                    ),
                forall|r: int, c: int|
                    0 <= r < 4 && 0 <= c < 4 && !(r < width && c < i) ==> is_default(
                        #[trigger] return_matrix.at(r, c),
                    ),
            decreases height - i,
        {
            let mut j: usize = 0;
            while j < width
                invariant
                    width == self.width,
                    height == self.height,
                    width <= 4,
                    height <= 4,
                    i < height,
                    j <= width,
                    return_matrix.width == width,
                    return_matrix.height == height,
                    forall|r: int, c: int|
                        0 <= r < width && 0 <= c < 4 && (c < i || (c == i && r < j))
                            ==> #[trigger] return_matrix.at(r, c) == self.at(c, r),
                    forall|r: int, c: int|
                        0 <= r < 4 && 0 <= c < 4 && !(r < width && (c < i || (c == i && r < j)))
                            ==> is_default(#[trigger] return_matrix.at(r, c)),
                decreases width - j,
            {
                let ghost before = return_matrix;
                return_matrix.data[j][i] = self.data[i][j];
                assert forall|r: int, c: int| 0 <= r < 4 && 0 <= c < 4 implies #[trigger] return_matrix.at(
                    r,
                    c,
                ) == (if r == j && c == i {
                    self.at(i as int, j as int)
                } else {
                    before.at(r, c)
                }) by {}
                j += 1;
            }
            i += 1;
        }
        return_matrix
    }

    /// Whether row `row` and column `col` can be taken out: the grid has a
    /// row and a column, and every entry that moves up lies in the grid and
    /// in the store.
    pub open spec fn can_remove(self, row: int, col: int) -> bool {
        &&& self.width >= 1
        &&& self.height >= 1
        &&& forall|r: int|
            0 <= r < self.width - 1 && r < 4 && self.height > 1 ==> skipping(r, row) < self.height
                && skipping(r, row) < 4
        &&& forall|c: int|
            0 <= c < self.height - 1 && c < 4 && self.width > 1 ==> skipping(c, col) < 4
    }

    /// The grid without row `row` and column `col`: the entries behind them
    /// move up by one, both sizes shrink by one, and the rest of the store has
    /// the default value. A grid with as many rows as columns, at most four,
    /// admits every `row` and `col`.
    pub fn submatrix(&self, row: usize, col: usize) -> (m: Matrix<T>)
        requires
            self.can_remove(row as int, col as int),
        ensures
            m.width == self.width - 1,
            m.height == self.height - 1,
            forall|r: int, c: int|
                0 <= r < 4 && 0 <= c < 4 && r < m.width && c < m.height ==> #[trigger] m.at(r, c)
                    == self.at(skipping(r, row as int), skipping(c, col as int)),
            forall|r: int, c: int|
                0 <= r < 4 && 0 <= c < 4 && !(r < m.width && c < m.height) ==> is_default(
                    #[trigger] m.at(r, c),
                ),
    {
        let width = self.width - 1;
        let height = self.height - 1;
        let mut out = Matrix::new(width, height);
        let mut r: usize = 0;
        while r < 4 && r < width
            invariant
                self.can_remove(row as int, col as int),
                width == self.width - 1,
                height == self.height - 1,
                r <= 4,
                out.width == width,
                out.height == height,
                forall|a: int, c: int|
                    0 <= a < r && 0 <= c < 4 && a < width && c < height ==> #[trigger] out.at(a, c)
                        == self.at(skipping(a, row as int), skipping(c, col as int)),
                forall|a: int, c: int|
                    0 <= a < 4 && 0 <= c < 4 && !(a < r && a < width && c < height) ==> is_default(
                        #[trigger] out.at(a, c),
                    ),
            decreases 4 - r,
        {
            let mut c: usize = 0;
            while c < 4 && c < height
                invariant
                    self.can_remove(row as int, col as int),
                    width == self.width - 1,
                    height == self.height - 1,
                    r < 4,
                    r < width,
                    c <= 4,
                    out.width == width,
                    out.height == height,
                    forall|a: int, b: int|
                        0 <= a < 4 && 0 <= b < 4 && a < width && b < height && (a < r || (a == r
                            && b < c)) ==> #[trigger] out.at(a, b) == self.at(
                            skipping(a, row as int),
                            skipping(b, col as int),
                        ),
                    forall|a: int, b: int|
                        0 <= a < 4 && 0 <= b < 4 && !(a < width && b < height && (a < r || (a == r
                            && b < c))) ==> is_default(#[trigger] out.at(a, b)),
                decreases 4 - c,
            {
                let rx = if r < row {
                    r
                } else {
                    r + 1
                };
                let cx = if c < col {
                    c
                } else {
                    c + 1
                };
                assert(rx == skipping(r as int, row as int));
                assert(cx == skipping(c as int, col as int));
                let ghost before = out;
                let entry = self[rx][cx];
                out.data[r][c] = entry;
                assert forall|a: int, b: int| 0 <= a < 4 && 0 <= b < 4 implies #[trigger] out.at(a, b)
                    == (if a == r && b == c {
                    entry
                } else {
                    before.at(a, b)
                }) by {}
                c += 1;
            }
            r += 1;
        }
        out
    }

    /// Whether the cofactor of row `row` and column `col` is the minor with
    /// its sign changed: it is where `row + col` is odd.
    pub fn cofactor_negates(row: usize, col: usize) -> (negates: bool)
        requires
            row + col <= usize::MAX,
        ensures
            negates == ((row + col) % 2 == 1),
    {
        (row + col) % 2 != 0
    }
}

/// Row `index` of the grid, which must be one of its rows.
impl<T: Copy + Default> core::ops::Index<usize> for Matrix<T> {
    type Output = [T; 4];

    fn index(&self, index: usize) -> (row: &[T; 4])
        ensures
            *row == self.data[index as int],
    {
        &self.data[index]
    }
}

impl<T: Copy + Default> vstd::std_specs::core::IndexSpecImpl<usize> for Matrix<T> {
    open spec fn index_req(&self, index: &usize) -> bool {
        *index < self.height && *index < 4
    }
}

/// The grid of three rows and columns with the entries of `array`.
impl<T: Copy + Default> From<[[T; 3]; 3]> for Matrix<T> {
    fn from(array: [[T; 3]; 3]) -> (m: Matrix<T>)
        ensures
            m.width == 3,
            m.height == 3,
            forall|r: int, c: int| 0 <= r < 3 && 0 <= c < 3 ==> #[trigger] m.at(r, c) == array[r][c],
            forall|r: int, c: int|
                0 <= r < 4 && 0 <= c < 4 && !(r < 3 && c < 3) ==> is_default(#[trigger] m.at(r, c)),
    {
        let p: T = T::default();
        Matrix {
            width: 3,
            height: 3,
            data: [
                [array[0][0], array[0][1], array[0][2], p],
                [array[1][0], array[1][1], array[1][2], p],
                [array[2][0], array[2][1], array[2][2], p],
                [p, p, p, p],
            ],
        }
    }
}

impl<T: Copy + Default> FromSpecImpl<[[T; 3]; 3]> for Matrix<T> {
    open spec fn obeys_from_spec() -> bool {
        false
    }

    open spec fn from_spec(array: [[T; 3]; 3]) -> Matrix<T> {
        arbitrary()
    }
}

/// The grid of two rows and columns with the entries of `array`.
impl<T: Copy + Default> From<[[T; 2]; 2]> for Matrix<T> {
    fn from(array: [[T; 2]; 2]) -> (m: Matrix<T>)
        ensures
            m.width == 2,
            m.height == 2,
            forall|r: int, c: int| 0 <= r < 2 && 0 <= c < 2 ==> #[trigger] m.at(r, c) == array[r][c],
            forall|r: int, c: int|
                0 <= r < 4 && 0 <= c < 4 && !(r < 2 && c < 2) ==> is_default(#[trigger] m.at(r, c)),
    {
        let p: T = T::default();
        Matrix {
            width: 2,
            height: 2,
            data: [
                [array[0][0], array[0][1], p, p],
                [array[1][0], array[1][1], p, p],
                [p, p, p, p],
                [p, p, p, p],
            ],
        }
    }
}

impl<T: Copy + Default> FromSpecImpl<[[T; 2]; 2]> for Matrix<T> {
    open spec fn obeys_from_spec() -> bool {
        false
    }

    open spec fn from_spec(array: [[T; 2]; 2]) -> Matrix<T> {
        arbitrary()
    }
}

/// The grid of four rows and columns with the entries of `array`.
impl<T: Copy + Default> From<[[T; 4]; 4]> for Matrix<T> {
    fn from(array: [[T; 4]; 4]) -> (m: Matrix<T>) {
        Matrix { width: 4, height: 4, data: array }
    }
}

impl<T: Copy + Default> FromSpecImpl<[[T; 4]; 4]> for Matrix<T> {
    open spec fn obeys_from_spec() -> bool {
        true
    }

    open spec fn from_spec(array: [[T; 4]; 4]) -> Matrix<T> {
        Matrix { width: 4, height: 4, data: array }
    }
}

} // verus!
