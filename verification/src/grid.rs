use crate::probability::SCALE;
use vstd::arithmetic::div_mod::{lemma_div_is_ordered, lemma_div_multiples_vanish_fancy};
use vstd::prelude::*;

verus! {

/// The two ways of reading a probability for a pixel off the coarse grid.
#[derive(Clone, Copy, PartialEq, Eq, Debug, Structural)]
pub enum InterpolationType {
    /// The value of the nearest grid cell, one cell past the padding ring.
    NoInterpolation,
    /// The bilinear mean of the four grid cells around the pixel.
    LinearMean,
}

/// The mathematical content of a segmentation grid: the probabilities that the network
/// produced, one per grid cell and row by row, with the stride and the size of the image
/// that they describe.
pub struct GridModel {
    pub orig_width: nat,
    pub orig_height: nat,
    pub width: nat,
    pub height: nat,
    pub stride: nat,
    pub values: Seq<nat>,
}

/// The sum that bilinear interpolation divides by the square of the stride: each of the four
/// neighbours weighted by the area of the rectangle opposite to it.
pub open spec fn weighted_sum(
    stride: int,
    rem_x: int,
    rem_y: int,
    v11: int,
    v12: int,
    v21: int,
    v22: int,
) -> int {
    (stride - rem_x) * ((stride - rem_y) * v11 + rem_y * v12) + rem_x * ((stride - rem_y) * v21
        + rem_y * v22)
}

/// The bilinear mean of four neighbours for a pixel that lies `rem_x` columns and `rem_y`
/// rows past the first of them, rounded down to a whole number of parts. The neighbours are
/// named by column, then row: `v12` is in the first column and the second row.
pub open spec fn weighted_mean(
    stride: int,
    rem_x: int,
    rem_y: int,
    v11: int,
    v12: int,
    v21: int,
    v22: int,
) -> int {
    weighted_sum(stride, rem_x, rem_y, v11, v12, v21, v22) / (stride * stride)
}

/// The lesser of two numbers.
pub open spec fn min_of(a: int, b: int) -> int {
    if a <= b {
        a
    } else {
        b
    }
}

/// The greater of two numbers.
pub open spec fn max_of(a: int, b: int) -> int {
    if a >= b {
        a
    } else {
        b
    }
}

impl GridModel {
    /// Every dimension and the stride are positive, there is one value per grid cell, and
    /// every value is a probability.
    pub open spec fn valid(self) -> bool {
        &&& self.stride > 0
        &&& self.orig_width > 0
        &&& self.orig_height > 0
        &&& self.width > 0
        &&& self.height > 0
        &&& self.values.len() == self.width * self.height
        &&& forall|i: int| 0 <= i < self.values.len() ==> #[trigger] self.values[i] <= SCALE
    }

    /// Whether the pixel `(x, y)` lies in the image that the grid describes.
    pub open spec fn contains(self, x: int, y: int) -> bool {
        0 <= x < self.orig_width && 0 <= y < self.orig_height
    }

    /// The value of the grid cell in column `col` of row `row`.
    pub open spec fn cell(self, col: int, row: int) -> nat {
        self.values[row * self.width + col]
    }

    /// The grid column for a column step, held back to the last column of the grid.
    pub open spec fn column(self, step: int) -> int {
        min_of(step, self.width - 1)
    }

    /// The grid row for a row step, held back to the last row of the grid.
    pub open spec fn row(self, step: int) -> int {
        min_of(step, self.height - 1)
    }

    /// The column of the two left neighbours of pixel column `x`.
    pub open spec fn left(self, x: int) -> int {
        self.column(x / (self.stride as int))
    }

    /// The column of the two right neighbours of pixel column `x`.
    pub open spec fn right(self, x: int) -> int {
        self.column(x / (self.stride as int) + 1)
    }

    /// The row of the two upper neighbours of pixel row `y`.
    pub open spec fn upper(self, y: int) -> int {
        self.row(y / (self.stride as int))
    }

    /// The row of the two lower neighbours of pixel row `y`.
    pub open spec fn lower(self, y: int) -> int {
        self.row(y / (self.stride as int) + 1)
    }

    /// The probability of pixel `(x, y)` without interpolation: the cell one past the
    /// pixel's own step in each direction, since cell zero belongs to the padding ring.
    pub open spec fn no_interpolation(self, x: int, y: int) -> int {
        self.cell(
            self.column(1 + x / (self.stride as int)),
            self.row(1 + y / (self.stride as int)),
        ) as int
    }

    /// The probability of pixel `(x, y)` by bilinear interpolation between its four
    /// neighbours.
    pub open spec fn linear_mean(self, x: int, y: int) -> int {
        weighted_mean(
            self.stride as int,
            x % (self.stride as int),
            y % (self.stride as int),
            self.cell(self.left(x), self.upper(y)) as int,
            self.cell(self.left(x), self.lower(y)) as int,
            self.cell(self.right(x), self.upper(y)) as int,
            self.cell(self.right(x), self.lower(y)) as int,
        )
    }

    /// The probability of pixel `(x, y)` under the given policy.
    pub open spec fn sample(self, x: int, y: int, policy: InterpolationType) -> int {
        match policy {
            InterpolationType::NoInterpolation => self.no_interpolation(x, y),
            InterpolationType::LinearMean => self.linear_mean(x, y),
        }
    }

    /// The least of the four neighbours of pixel `(x, y)`.
    pub open spec fn least_neighbour(self, x: int, y: int) -> int {
        min_of(
            min_of(
                self.cell(self.left(x), self.upper(y)) as int,
                self.cell(self.left(x), self.lower(y)) as int,
            ),
            min_of(
                self.cell(self.right(x), self.upper(y)) as int,
                self.cell(self.right(x), self.lower(y)) as int,
            ),
        )
    }

    /// The greatest of the four neighbours of pixel `(x, y)`.
    pub open spec fn greatest_neighbour(self, x: int, y: int) -> int {
        max_of(
            max_of(
                self.cell(self.left(x), self.upper(y)) as int,
                self.cell(self.left(x), self.lower(y)) as int,
            ),
            max_of(
                self.cell(self.right(x), self.upper(y)) as int,
                self.cell(self.right(x), self.lower(y)) as int,
            ),
        )
    }
}

/// The four weights are not negative and add up to the square of the stride, so the
/// weighted sum of values between `lo` and `hi` lies between `lo` and `hi` times that square.
pub proof fn lemma_weighted_sum_bounds(
    stride: int,
    rem_x: int,
    rem_y: int,
    v11: int,
    v12: int,
    v21: int,
    v22: int,
    lo: int,
    hi: int,
)
    requires
        0 <= rem_x <= stride,
        0 <= rem_y <= stride,
        lo <= v11 <= hi,
        lo <= v12 <= hi,
        lo <= v21 <= hi,
        lo <= v22 <= hi,
    ensures
        lo * (stride * stride) <= weighted_sum(stride, rem_x, rem_y, v11, v12, v21, v22),
        weighted_sum(stride, rem_x, rem_y, v11, v12, v21, v22) <= hi * (stride * stride),
{
    let w11 = (stride - rem_x) * (stride - rem_y);
    let w12 = (stride - rem_x) * rem_y;
    let w21 = rem_x * (stride - rem_y);
    let w22 = rem_x * rem_y;
    assert(w11 >= 0 && w12 >= 0 && w21 >= 0 && w22 >= 0) by (nonlinear_arith)
        requires
            0 <= rem_x <= stride,
            0 <= rem_y <= stride,
            w11 == (stride - rem_x) * (stride - rem_y),
            w12 == (stride - rem_x) * rem_y,
            w21 == rem_x * (stride - rem_y),
            w22 == rem_x * rem_y,
    ;
    assert(w11 + w12 + w21 + w22 == stride * stride) by (nonlinear_arith)
        requires
            w11 == (stride - rem_x) * (stride - rem_y),
            w12 == (stride - rem_x) * rem_y,
            w21 == rem_x * (stride - rem_y),
            w22 == rem_x * rem_y,
    ;
    lemma_weighted_pair(stride - rem_x, stride - rem_y, v11, rem_y, v12);
    lemma_weighted_pair(rem_x, stride - rem_y, v21, rem_y, v22);
    lemma_weight_bounds(w11, v11, lo, hi);
    lemma_weight_bounds(w12, v12, lo, hi);
    lemma_weight_bounds(w21, v21, lo, hi);
    lemma_weight_bounds(w22, v22, lo, hi);
    assert(lo * (stride * stride) == w11 * lo + w12 * lo + w21 * lo + w22 * lo)
        by (nonlinear_arith)
        requires
            w11 + w12 + w21 + w22 == stride * stride,
    ;
    assert(hi * (stride * stride) == w11 * hi + w12 * hi + w21 * hi + w22 * hi)
        by (nonlinear_arith)
        requires
            w11 + w12 + w21 + w22 == stride * stride,
    ;
}

proof fn lemma_weighted_pair(a: int, p: int, v: int, q: int, u: int)
    by (nonlinear_arith)
    ensures
        a * (p * v + q * u) == (a * p) * v + (a * q) * u,
{
}

proof fn lemma_weight_bounds(w: int, v: int, lo: int, hi: int)
    by (nonlinear_arith)
    requires
        0 <= w,
        lo <= v <= hi,
    ensures
        w * lo <= w * v <= w * hi,
{
}

/// The bilinear mean of values between `lo` and `hi` lies between `lo` and `hi`.
pub proof fn lemma_weighted_mean_bounds(
    stride: int,
    rem_x: int,
    rem_y: int,
    v11: int,
    v12: int,
    v21: int,
    v22: int,
    lo: int,
    hi: int,
)
    requires
        0 < stride,
        0 <= rem_x <= stride,
        0 <= rem_y <= stride,
        lo <= v11 <= hi,
        lo <= v12 <= hi,
        lo <= v21 <= hi,
        lo <= v22 <= hi,
    ensures
        lo <= weighted_mean(stride, rem_x, rem_y, v11, v12, v21, v22) <= hi,
{
    let square = stride * stride;
    let sum = weighted_sum(stride, rem_x, rem_y, v11, v12, v21, v22);
    lemma_weighted_sum_bounds(stride, rem_x, rem_y, v11, v12, v21, v22, lo, hi);
    assert(square > 0) by (nonlinear_arith)
        requires
            square == stride * stride,
            0 < stride,
    ;
    lemma_div_is_ordered(lo * square, sum, square);
    lemma_div_is_ordered(sum, hi * square, square);
    lemma_div_multiples_vanish_fancy(lo, 0, square);
    lemma_div_multiples_vanish_fancy(hi, 0, square);
    assert(lo * square == square * lo + 0) by (nonlinear_arith);
    assert(hi * square == square * hi + 0) by (nonlinear_arith);
}

/// Every cell that lies in the grid holds a probability.
pub proof fn lemma_cell_in_grid(grid: GridModel, col: int, row: int)
    requires
        grid.valid(),
        0 <= col < grid.width,
        0 <= row < grid.height,
    ensures
        0 <= row * grid.width + col < grid.values.len(),
        grid.cell(col, row) <= SCALE,
{
    let width = grid.width as int;
    let height = grid.height as int;
    assert(0 <= row * width && (row + 1) * width <= height * width) by (nonlinear_arith)
        requires
            0 <= row < height,
            0 < width,
    ;
    assert((row + 1) * width == row * width + width) by (nonlinear_arith);
    assert(height * width == width * height) by (nonlinear_arith);
}

/// Edge clamp. The neighbours of every pixel lie in the grid: the right neighbour is the
/// left one or the column after it, and it is the left one itself wherever the pixel falls
/// in or past the last column of the grid. Rows behave as columns do.
pub proof fn lemma_neighbours_in_grid(grid: GridModel, x: int, y: int)
    requires
        grid.valid(),
        0 <= x,
        0 <= y,
    ensures
        0 <= grid.left(x) <= grid.right(x) < grid.width,
        0 <= grid.upper(y) <= grid.lower(y) < grid.height,
        grid.right(x) <= grid.left(x) + 1,
        grid.lower(y) <= grid.upper(y) + 1,
        x / (grid.stride as int) >= grid.width - 1 ==> grid.right(x) == grid.left(x),
        y / (grid.stride as int) >= grid.height - 1 ==> grid.lower(y) == grid.upper(y),
        x / (grid.stride as int) < grid.width - 1 ==> grid.left(x) == x / (grid.stride as int)
            && grid.right(x) == grid.left(x) + 1,
        y / (grid.stride as int) < grid.height - 1 ==> grid.upper(y) == y / (grid.stride as int)
            && grid.lower(y) == grid.upper(y) + 1,
        0 <= x % (grid.stride as int) < grid.stride,
        0 <= y % (grid.stride as int) < grid.stride,
{
    let stride = grid.stride as int;
    assert(0 <= x / stride && 0 <= x % stride < stride) by (nonlinear_arith)
        requires
            0 <= x,
            0 < stride,
    ;
    assert(0 <= y / stride && 0 <= y % stride < stride) by (nonlinear_arith)
        requires
            0 <= y,
            0 < stride,
    ;
}

/// Without interpolation a pixel reads the cell one past its own step, wherever that cell
/// lies in the grid: the pixel at column step `i` and row step `j` reads cell
/// `(i + 1, j + 1)`.
pub proof fn lemma_no_interpolation_reads_padded_cell(grid: GridModel, x: int, y: int)
    requires
        grid.valid(),
        0 <= x,
        0 <= y,
        1 + x / (grid.stride as int) < grid.width,
        1 + y / (grid.stride as int) < grid.height,
    ensures
        grid.no_interpolation(x, y) == grid.cell(
            1 + x / (grid.stride as int),
            1 + y / (grid.stride as int),
        ),
{
}

/// At the multiples of the stride, reading without interpolation matches the grid exactly:
/// pixel `(i * stride, j * stride)` reads cell `(i + 1, j + 1)`.
pub proof fn lemma_no_interpolation_at_multiples(grid: GridModel, i: int, j: int)
    requires
        grid.valid(),
        0 <= i,
        0 <= j,
        i + 1 < grid.width,
        j + 1 < grid.height,
    ensures
        grid.no_interpolation(i * grid.stride, j * grid.stride) == grid.cell(i + 1, j + 1),
{
    let stride = grid.stride as int;
    lemma_div_multiples_vanish_fancy(i, 0, stride);
    lemma_div_multiples_vanish_fancy(j, 0, stride);
    assert(i * stride == stride * i + 0) by (nonlinear_arith);
    assert(j * stride == stride * j + 0) by (nonlinear_arith);
}

/// Reading without interpolation is idempotent: a pixel reads what the first pixel of its
/// own block reads, and moving to that pixel a second time changes nothing.
pub proof fn lemma_no_interpolation_idempotent(grid: GridModel, x: int, y: int)
    requires
        grid.valid(),
        0 <= x,
        0 <= y,
    ensures
        ({
            let stride = grid.stride as int;
            let block_x = x - x % stride;
            let block_y = y - y % stride;
            &&& grid.no_interpolation(block_x, block_y) == grid.no_interpolation(x, y)
            &&& block_x - block_x % stride == block_x
            &&& block_y - block_y % stride == block_y
        }),
{
    let stride = grid.stride as int;
    lemma_block_start(x, stride);
    lemma_block_start(y, stride);
}

proof fn lemma_block_start(x: int, stride: int)
    requires
        0 <= x,
        0 < stride,
    ensures
        (x - x % stride) / stride == x / stride,
        (x - x % stride) % stride == 0,
{
    assert(x == stride * (x / stride) + x % stride && 0 <= x % stride < stride)
        by (nonlinear_arith)
        requires
            0 <= x,
            0 < stride,
    ;
    assert(x - x % stride == (x / stride) * stride + 0) by (nonlinear_arith)
        requires
            x == stride * (x / stride) + x % stride,
    ;
    vstd::arithmetic::div_mod::lemma_fundamental_div_mod_converse(
        x - x % stride,
        stride,
        x / stride,
        0,
    );
}

/// On the grid, bilinear interpolation is exact: where both coordinates are multiples of
/// the stride, the weights collapse to one and zero and the mean is the value of the
/// pixel's own cell.
pub proof fn lemma_linear_mean_on_grid(grid: GridModel, x: int, y: int)
    requires
        grid.valid(),
        0 <= x,
        0 <= y,
        x % (grid.stride as int) == 0,
        y % (grid.stride as int) == 0,
    ensures
        grid.linear_mean(x, y) == grid.cell(grid.left(x), grid.upper(y)),
{
    let stride = grid.stride as int;
    let v11 = grid.cell(grid.left(x), grid.upper(y)) as int;
    let v12 = grid.cell(grid.left(x), grid.lower(y)) as int;
    let v21 = grid.cell(grid.right(x), grid.upper(y)) as int;
    let v22 = grid.cell(grid.right(x), grid.lower(y)) as int;
    let square = stride * stride;
    assert(weighted_sum(stride, 0, 0, v11, v12, v21, v22) == square * v11 + 0)
        by (nonlinear_arith)
        requires
            square == stride * stride,
    ;
    assert(square > 0) by (nonlinear_arith)
        requires
            square == stride * stride,
            0 < stride,
    ;
    lemma_div_multiples_vanish_fancy(v11, 0, square);
}

/// Bilinear interpolation is a convex combination: the mean lies between the least and
/// the greatest of the pixel's four neighbours, so it never jumps past them, at the edge
/// of the grid as little as inside it.
pub proof fn lemma_linear_mean_convex(grid: GridModel, x: int, y: int)
    requires
        grid.valid(),
        0 <= x,
        0 <= y,
    ensures
        grid.least_neighbour(x, y) <= grid.linear_mean(x, y) <= grid.greatest_neighbour(x, y),
{
    lemma_neighbours_in_grid(grid, x, y);
    lemma_weighted_mean_bounds(
        grid.stride as int,
        x % (grid.stride as int),
        y % (grid.stride as int),
        grid.cell(grid.left(x), grid.upper(y)) as int,
        grid.cell(grid.left(x), grid.lower(y)) as int,
        grid.cell(grid.right(x), grid.upper(y)) as int,
        grid.cell(grid.right(x), grid.lower(y)) as int,
        grid.least_neighbour(x, y),
        grid.greatest_neighbour(x, y),
    );
}

/// Where every value of the grid lies between `lo` and `hi`, so does the probability of
/// every pixel, under either policy. A grid of one value gives that value everywhere.
pub proof fn lemma_sample_within(
    grid: GridModel,
    x: int,
    y: int,
    policy: InterpolationType,
    lo: int,
    hi: int,
)
    requires
        grid.valid(),
        0 <= x,
        0 <= y,
        forall|i: int| 0 <= i < grid.values.len() ==> lo <= #[trigger] grid.values[i] <= hi,
    ensures
        lo <= grid.sample(x, y, policy) <= hi,
{
    let stride = grid.stride as int;
    lemma_neighbours_in_grid(grid, x, y);
    lemma_cell_in_grid(grid, grid.left(x), grid.upper(y));
    lemma_cell_in_grid(grid, grid.left(x), grid.lower(y));
    lemma_cell_in_grid(grid, grid.right(x), grid.upper(y));
    lemma_cell_in_grid(grid, grid.right(x), grid.lower(y));
    lemma_weighted_mean_bounds(
        stride,
        x % stride,
        y % stride,
        grid.cell(grid.left(x), grid.upper(y)) as int,
        grid.cell(grid.left(x), grid.lower(y)) as int,
        grid.cell(grid.right(x), grid.upper(y)) as int,
        grid.cell(grid.right(x), grid.lower(y)) as int,
        lo,
        hi,
    );
    assert(0 <= x / stride && 0 <= y / stride) by (nonlinear_arith)
        requires
            0 <= x,
            0 <= y,
            0 < stride,
    ;
    lemma_cell_in_grid(grid, grid.column(1 + x / stride), grid.row(1 + y / stride));
}

/// The probability of every pixel is a probability: it lies between zero and one.
pub proof fn lemma_sample_is_probability(
    grid: GridModel,
    x: int,
    y: int,
    policy: InterpolationType,
)
    requires
        grid.valid(),
        0 <= x,
        0 <= y,
    ensures
        0 <= grid.sample(x, y, policy) <= SCALE,
{
    lemma_sample_within(grid, x, y, policy, 0, SCALE as int);
}

} // verus!
