//! Terminal-cell sampling topology.
//!
//! Each visible terminal cell owns a small block of `columns × rows` logical
//! density samples. `HALF_BLOCK` (1×2) is the production topology and
//! `QUADRANT` (2×2) the quadrant one; subcells are ordered row-major
//! (top-left, top-right, bottom-left, bottom-right).

use vstd::prelude::*;

verus! {

/// Named subcell positions of a 2×2 terminal cell, in row-major order.
#[derive(Debug, Clone, Copy, PartialEq, Eq)]
pub enum Quadrant {
    TopLeft,
    TopRight,
    BottomLeft,
    BottomRight,
}

/// Offset `(sx, sy)` of a quadrant inside its terminal cell.
pub open spec fn quadrant_offset(q: Quadrant) -> (usize, usize) {
    match q {
        Quadrant::TopLeft => (0, 0),
        Quadrant::TopRight => (1, 0),
        Quadrant::BottomLeft => (0, 1),
        Quadrant::BottomRight => (1, 1),
    }
}

/// The quadrant whose offset is `offset`, if any.
pub open spec fn quadrant_from_offset(offset: (usize, usize)) -> Option<Quadrant> {
    if offset == (0usize, 0usize) {
        Some(Quadrant::TopLeft)
    } else if offset == (1usize, 0usize) {
        Some(Quadrant::TopRight)
    } else if offset == (0usize, 1usize) {
        Some(Quadrant::BottomLeft)
    } else if offset == (1usize, 1usize) {
        Some(Quadrant::BottomRight)
    } else {
        None
    }
}

impl Quadrant {
    /// All quadrants in row-major order: TL, TR, BL, BR.
    pub const ALL: [Quadrant; 4] = [
        Quadrant::TopLeft,
        Quadrant::TopRight,
        Quadrant::BottomLeft,
        Quadrant::BottomRight,
    ];

    /// Subcell offset `(sx, sy)` of this quadrant within its terminal cell.
    pub fn offset(self) -> (r: (usize, usize))
        ensures
            r == quadrant_offset(self),
    {
        match self {
            Quadrant::TopLeft => (0, 0),
            Quadrant::TopRight => (1, 0),
            Quadrant::BottomLeft => (0, 1),
            Quadrant::BottomRight => (1, 1),
        }
    }

    /// The quadrant for a valid 2×2 subcell offset, or `None` for offsets
    /// outside the 2×2 set.
    pub fn from_offset(offset: (usize, usize)) -> (r: Option<Quadrant>)
        ensures
            r == quadrant_from_offset(offset),
    {
        match offset {
            (0, 0) => Some(Quadrant::TopLeft),
            (1, 0) => Some(Quadrant::TopRight),
            (0, 1) => Some(Quadrant::BottomLeft),
            (1, 1) => Some(Quadrant::BottomRight),
            _ => None,
        }
    }
}

/// `from_offset` inverts `offset`, and accepts exactly the four offsets
/// with both coordinates below 2.
pub proof fn lemma_quadrant_offset_roundtrip(q: Quadrant, offset: (usize, usize))
    ensures
        quadrant_from_offset(quadrant_offset(q)) == Some(q),
        quadrant_from_offset(offset) is Some <==> (offset.0 < 2 && offset.1 < 2),
        quadrant_from_offset(offset) matches Some(p) ==> quadrant_offset(p) == offset,
{
}

/// Fixed sampling shape of one terminal cell in logical density samples.
#[derive(Debug, Clone, Copy, PartialEq, Eq)]
pub struct CellSamplingShape {
    columns: usize,
    rows: usize,
}

/// Global logical index of subcell `(sx, sy)` of terminal cell `(cx, cy)`
/// under a `columns × rows` shape.
pub open spec fn logical_index_spec(
    columns: int,
    rows: int,
    cx: int,
    cy: int,
    sx: int,
    sy: int,
) -> (int, int) {
    (cx * columns + sx, cy * rows + sy)
}

impl CellSamplingShape {
    /// Production topology: 1×2 (half-block).
    pub fn half_block() -> (s: Self)
        ensures
            s == Self::spec_half_block(),
    {
        Self { columns: 1, rows: 2 }
    }

    /// Quadrant topology: 2×2.
    pub fn quadrant() -> (s: Self)
        ensures
            s == Self::spec_quadrant(),
    {
        Self { columns: 2, rows: 2 }
    }

    pub closed spec fn spec_half_block() -> Self {
        Self { columns: 1, rows: 2 }
    }

    pub closed spec fn spec_quadrant() -> Self {
        Self { columns: 2, rows: 2 }
    }

    pub closed spec fn spec_columns(self) -> usize {
        self.columns
    }

    pub closed spec fn spec_rows(self) -> usize {
        self.rows
    }

    /// A shape is one of the two defined topologies.
    pub open spec fn wf(self) -> bool {
        &&& 1 <= self.spec_columns() <= 2
        &&& self.spec_rows() == 2
    }

    pub proof fn lemma_constants()
        ensures
            Self::spec_half_block().spec_columns() == 1,
            Self::spec_half_block().spec_rows() == 2,
            Self::spec_quadrant().spec_columns() == 2,
            Self::spec_quadrant().spec_rows() == 2,
            Self::spec_half_block().wf(),
            Self::spec_quadrant().wf(),
            Self::spec_half_block() != Self::spec_quadrant(),
    {
    }

    /// Logical samples per terminal cell along x.
    pub fn columns(&self) -> (c: usize)
        ensures
            c == self.spec_columns(),
    {
        self.columns
    }

    /// Logical samples per terminal cell along y.
    pub fn rows(&self) -> (r: usize)
        ensures
            r == self.spec_rows(),
    {
        self.rows
    }

    /// Total logical samples per terminal cell.
    pub fn subcells(&self) -> (n: usize)
        requires
            self.wf(),
        ensures
            n == self.spec_columns() * self.spec_rows(),
    {
        self.columns * self.rows
    }

    /// Subcell offsets `(sx, sy)` in row-major order.
    pub fn subcell_offsets(&self) -> (offsets: Vec<(usize, usize)>)
        requires
            self.wf(),
        ensures
            offsets@.len() == self.spec_columns() * self.spec_rows(),
            forall|k: int|
                0 <= k < offsets@.len() ==> #[trigger] offsets@[k] == (
                    (k % self.spec_columns() as int) as usize,
                    (k / self.spec_columns() as int) as usize,
                ),
    {
        let mut offsets: Vec<(usize, usize)> = Vec::new();
        let cols = self.columns;
        let mut sy: usize = 0;
        while sy < self.rows
            invariant
                self.wf(),
                cols == self.spec_columns(),
                sy <= self.spec_rows(),
                offsets@.len() == sy * cols,
                forall|k: int|
                    0 <= k < offsets@.len() ==> #[trigger] offsets@[k] == (
                        (k % cols as int) as usize,
                        (k / cols as int) as usize,
                    ),
            decreases self.spec_rows() - sy,
        {
            let mut sx: usize = 0;
            while sx < cols
                invariant
                    self.wf(),
                    cols == self.spec_columns(),
                    sy < self.spec_rows(),
                    sx <= cols,
                    offsets@.len() == sy * cols + sx,
                    forall|k: int|
                        0 <= k < offsets@.len() ==> #[trigger] offsets@[k] == (
                            (k % cols as int) as usize,
                            (k / cols as int) as usize,
                        ),
                decreases cols - sx,
            {
                proof {
                    let k = (sy * cols + sx) as int;
                    assert(k % cols as int == sx && k / cols as int == sy) by (nonlinear_arith)
                        requires
                            k == sy * cols + sx,
                            sx < cols,
                            cols >= 1,
                    ;
                }
                offsets.push((sx, sy));
                sx = sx + 1;
            }
            assert(offsets@.len() == (sy + 1) * cols) by (nonlinear_arith)
                requires
                    offsets@.len() == sy * cols + cols,
            ;
            sy = sy + 1;
        }
        assert(offsets@.len() == self.spec_columns() * self.spec_rows()) by (nonlinear_arith)
            requires
                offsets@.len() == sy * cols,
                sy == self.spec_rows(),
                cols == self.spec_columns(),
        ;
        offsets
    }

    /// Maps terminal cell `(cell_x, cell_y)` and subcell `(sub_x, sub_y)`
    /// to the global logical density index.
    pub fn logical_index(&self, cell_x: usize, cell_y: usize, sub_x: usize, sub_y: usize) -> (r: (
        usize,
        usize,
    ))
        requires
            self.wf(),
            cell_x * self.spec_columns() + sub_x <= usize::MAX,
            cell_y * self.spec_rows() + sub_y <= usize::MAX,
        ensures
            (r.0 as int, r.1 as int) == logical_index_spec(
                self.spec_columns() as int,
                self.spec_rows() as int,
                cell_x as int,
                cell_y as int,
                sub_x as int,
                sub_y as int,
            ),
    {
        (cell_x * self.columns + sub_x, cell_y * self.rows + sub_y)
    }
}

/// Distinct (cell, subcell) pairs never share a logical sample: the
/// cell-to-sample mapping is injective, so adjacent cells do not overlap.
pub proof fn lemma_logical_index_injective(
    shape: CellSamplingShape,
    cx1: int,
    cy1: int,
    sx1: int,
    sy1: int,
    cx2: int,
    cy2: int,
    sx2: int,
    sy2: int,
)
    requires
        shape.wf(),
        cx1 >= 0,
        cy1 >= 0,
        cx2 >= 0,
        cy2 >= 0,
        0 <= sx1 < shape.spec_columns(),
        0 <= sx2 < shape.spec_columns(),
        0 <= sy1 < shape.spec_rows(),
        0 <= sy2 < shape.spec_rows(),
        logical_index_spec(shape.spec_columns() as int, shape.spec_rows() as int, cx1, cy1, sx1, sy1)
            == logical_index_spec(
            shape.spec_columns() as int,
            shape.spec_rows() as int,
            cx2,
            cy2,
            sx2,
            sy2,
        ),
    ensures
        cx1 == cx2,
        cy1 == cy2,
        sx1 == sx2,
        sy1 == sy2,
{
    let c = shape.spec_columns() as int;
    let r = shape.spec_rows() as int;
    lemma_div_mod_unique(cx1, sx1, cx2, sx2, c);
    lemma_div_mod_unique(cy1, sy1, cy2, sy2, r);
}

proof fn lemma_div_mod_unique(q1: int, r1: int, q2: int, r2: int, d: int)
    requires
        d >= 1,
        0 <= r1 < d,
        0 <= r2 < d,
        q1 * d + r1 == q2 * d + r2,
    ensures
        q1 == q2,
        r1 == r2,
{
    if q1 < q2 {
        assert(q1 * d + d <= q2 * d) by (nonlinear_arith)
            requires
                q1 < q2,
                d >= 1,
        ;
    } else if q2 < q1 {
        assert(q2 * d + d <= q1 * d) by (nonlinear_arith)
            requires
                q2 < q1,
                d >= 1,
        ;
    }
}

/// Every logical sample of a `width × height` terminal grid is produced by
/// exactly the cell `(lx / columns, ly / rows)` and subcell
/// `(lx % columns, ly % rows)`, which lie inside the grid: the mapping
/// covers the whole logical field.
pub proof fn lemma_logical_index_covers(
    shape: CellSamplingShape,
    width: int,
    height: int,
    lx: int,
    ly: int,
)
    requires
        shape.wf(),
        0 <= lx < width * shape.spec_columns(),
        0 <= ly < height * shape.spec_rows(),
    ensures
        ({
            let c = shape.spec_columns() as int;
            let r = shape.spec_rows() as int;
            &&& 0 <= lx / c < width
            &&& 0 <= ly / r < height
            &&& 0 <= lx % c < c
            &&& 0 <= ly % r < r
            &&& logical_index_spec(c, r, lx / c, ly / r, lx % c, ly % r) == (lx, ly)
        }),
{
    let c = shape.spec_columns() as int;
    let r = shape.spec_rows() as int;
    assert(lx / c * c + lx % c == lx && 0 <= lx % c < c && 0 <= lx / c) by (nonlinear_arith)
        requires
            c >= 1,
            lx >= 0,
    ;
    assert(ly / r * r + ly % r == ly && 0 <= ly % r < r && 0 <= ly / r) by (nonlinear_arith)
        requires
            r >= 1,
            ly >= 0,
    ;
    assert(lx / c < width) by (nonlinear_arith)
        requires
            c >= 1,
            0 <= lx < width * c,
            lx / c * c + lx % c == lx,
            0 <= lx % c,
    ;
    assert(ly / r < height) by (nonlinear_arith)
        requires
            r >= 1,
            0 <= ly < height * r,
            ly / r * r + ly % r == ly,
            0 <= ly % r,
    ;
}

/// Spiral sampling geometry: the logical field of a terminal grid under a
/// shape, and its isotropically supersampled high-resolution field.
#[derive(Debug, Clone, Copy, PartialEq, Eq)]
pub struct SamplingGeometry {
    pub terminal_width: usize,
    pub terminal_height: usize,
    pub shape: CellSamplingShape,
}

pub open spec fn max1(v: usize) -> int {
    if v >= 1 {
        v as int
    } else {
        1
    }
}

impl SamplingGeometry {
    /// Isotropic supersampling factor applied to the logical field.
    pub const SUPERSAMPLE_FACTOR: usize = 3;

    /// The geometry's dimensions fit in `usize`.
    pub open spec fn fits(self) -> bool {
        &&& self.shape.wf()
        &&& max1(self.terminal_width) * self.shape.spec_columns() * 3 <= usize::MAX
        &&& max1(self.terminal_height) * self.shape.spec_rows() * 3 <= usize::MAX
    }

    /// Whether the geometry's dimensions fit in `usize`.
    pub fn dimensions_fit(&self) -> (b: bool)
        ensures
            b == self.fits(),
    {
        let c = self.shape.columns();
        let r = self.shape.rows();
        if !(1 <= c && c <= 2 && r == 2) {
            return false;
        }
        let tw = if self.terminal_width >= 1 { self.terminal_width } else { 1 };
        let th = if self.terminal_height >= 1 { self.terminal_height } else { 1 };
        match tw.checked_mul(c) {
            None => {
                proof {
                    assert(tw * c <= tw * c * 3) by (nonlinear_arith)
                        requires
                            c >= 1,
                            tw >= 1,
                    ;
                }
                false
            },
            Some(a) => match a.checked_mul(3) {
                None => false,
                Some(_) => match th.checked_mul(r) {
                    None => {
                        proof {
                            assert(th * r <= th * r * 3) by (nonlinear_arith)
                                requires
                                    r >= 1,
                                    th >= 1,
                            ;
                        }
                        false
                    },
                    Some(b) => match b.checked_mul(3) {
                        None => false,
                        Some(_) => true,
                    },
                },
            },
        }
    }

    pub fn for_terminal(terminal_width: usize, terminal_height: usize, shape: CellSamplingShape) -> (g:
        Self)
        ensures
            g == (SamplingGeometry { terminal_width, terminal_height, shape }),
    {
        Self { terminal_width, terminal_height, shape }
    }

    /// `max(terminal_width, 1) * shape.columns()`.
    pub fn logical_width(&self) -> (w: usize)
        requires
            self.fits(),
        ensures
            w == max1(self.terminal_width) * self.shape.spec_columns(),
    {
        let tw = if self.terminal_width >= 1 { self.terminal_width } else { 1 };
        proof {
            assert(tw * self.shape.spec_columns() <= tw * self.shape.spec_columns() * 3)
                by (nonlinear_arith);
        }
        tw * self.shape.columns()
    }

    /// `max(terminal_height, 1) * shape.rows()`.
    pub fn logical_height(&self) -> (h: usize)
        requires
            self.fits(),
        ensures
            h == max1(self.terminal_height) * self.shape.spec_rows(),
    {
        let th = if self.terminal_height >= 1 { self.terminal_height } else { 1 };
        proof {
            assert(th * self.shape.spec_rows() <= th * self.shape.spec_rows() * 3)
                by (nonlinear_arith);
        }
        th * self.shape.rows()
    }

    /// `logical_width() * 3`.
    pub fn high_width(&self) -> (w: usize)
        requires
            self.fits(),
        ensures
            w == max1(self.terminal_width) * self.shape.spec_columns() * 3,
    {
        self.logical_width() * Self::SUPERSAMPLE_FACTOR
    }

    /// `logical_height() * 3`.
    pub fn high_height(&self) -> (h: usize)
        requires
            self.fits(),
        ensures
            h == max1(self.terminal_height) * self.shape.spec_rows() * 3,
    {
        self.logical_height() * Self::SUPERSAMPLE_FACTOR
    }
}

/// Input bin `[start, end)` that output cell `index` of a downsampling from
/// `input_len` to `output_len` cells averages: the proportional bounds,
/// widened to at least one input cell.
pub open spec fn downsample_bin_spec(index: int, input_len: int, output_len: int) -> (int, int) {
    let lo = index * input_len / output_len;
    let hi = (index + 1) * input_len / output_len;
    (lo, if hi > lo + 1 { hi } else { lo + 1 })
}

/// The input bin that one output cell of a downsampling averages.
pub fn downsample_bin(index: usize, input_len: usize, output_len: usize) -> (bin: (usize, usize))
    requires
        index < output_len,
        (index + 1) * input_len <= usize::MAX,
    ensures
        (bin.0 as int, bin.1 as int) == downsample_bin_spec(index as int, input_len as int, output_len as int),
{
    proof {
        let i = index as int;
        let n = input_len as int;
        let o = output_len as int;
        assert(i * n <= (i + 1) * n) by (nonlinear_arith)
            requires
                n >= 0,
        ;
        assert((i + 1) * n / o <= (i + 1) * n) by (nonlinear_arith)
            requires
                o > 0,
                i >= 0,
                n >= 0,
        ;
        assert(i * n / o <= i * n) by (nonlinear_arith)
            requires
                o > 0,
                i >= 0,
                n >= 0,
        ;
        if n > 0 {
            assert(i * n / o < n) by (nonlinear_arith)
                requires
                    o > i,
                    i >= 0,
                    n > 0,
            ;
        } else {
            assert(i * n == 0);
        }
    }
    let start = index * input_len / output_len;
    let end = (index + 1) * input_len / output_len;
    let widened = if end > start && end - start > 1 { end } else { start + 1 };
    (start, widened)
}

} // verus!
