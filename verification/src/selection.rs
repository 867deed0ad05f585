use crate::arith::lemma_mul_bounds;
use crate::buffer::at;
use crate::geometry::tri_contains;
use crate::geometry::Triangle;
use crate::pixel::Rgb;
use crate::pixel::RgbFilter;
use vstd::prelude::*;

verus! {

/// Which axis a paired selection names: two whole rows or two whole
/// columns.
#[derive(Clone, Copy, Debug, PartialEq, Eq, Structural)]
pub enum PairSelection {
    Lines,
    Columns,
}

/// A pure coordinate remapping `(x, y) -> (x', y')` held by the
/// [`PixelSelection::Function`] selector, with
/// `x' = (x_from_x * x + x_from_y * y + x_offset) / x_div` and `y'`
/// likewise. The division truncates. A map with a zero divisor sends
/// every coordinate out of bounds and so selects no pixels.
///
/// The selector admits exactly the remappings of this affine shape, so
/// that membership can be stated and proved as arithmetic; an arbitrary
/// function value could not be.
#[derive(Clone, Copy, Debug, PartialEq, Eq, Structural)]
pub struct CoordMap {
    pub x_from_x: u64,
    pub x_from_y: u64,
    pub x_offset: u64,
    pub x_div: u64,
    pub y_from_x: u64,
    pub y_from_y: u64,
    pub y_offset: u64,
    pub y_div: u64,
}

impl CoordMap {
    /// Both divisors are nonzero, so the map sends every coordinate
    /// somewhere.
    pub open spec fn divides(self) -> bool {
        self.x_div > 0 && self.y_div > 0
    }

    /// The first coordinate of the image of `(x, y)`.
    pub open spec fn map_x(self, x: int, y: int) -> int {
        (self.x_from_x * x + self.x_from_y * y + self.x_offset) / (self.x_div as int)
    }

    /// The second coordinate of the image of `(x, y)`.
    pub open spec fn map_y(self, x: int, y: int) -> int {
        (self.y_from_x * x + self.y_from_y * y + self.y_offset) / (self.y_div as int)
    }

    /// The identity map, which keeps every in-bounds pixel selected.
    pub fn identity() -> (m: CoordMap)
        ensures
            m == (CoordMap {
                x_from_x: 1,
                x_from_y: 0,
                x_offset: 0,
                x_div: 1,
                y_from_x: 0,
                y_from_y: 1,
                y_offset: 0,
                y_div: 1,
            }),
    {
        CoordMap {
            x_from_x: 1,
            x_from_y: 0,
            x_offset: 0,
            x_div: 1,
            y_from_x: 0,
            y_from_y: 1,
            y_offset: 0,
            y_div: 1,
        }
    }

    /// Whether the image of `(x, y)` lands inside a `w` by `h` raster.
    pub fn maps_into(&self, x: u32, y: u32, w: u32, h: u32) -> (hit: bool)
        ensures
            hit == (self.divides() && self.map_x(x as int, y as int) < w && self.map_y(
                x as int,
                y as int,
            ) < h),
    {
        if self.x_div == 0 || self.y_div == 0 {
            return false;
        }
        proof {
            lemma_mul_bounds(self.x_from_x as int, x as int, u64::MAX as int, u32::MAX as int);
            lemma_mul_bounds(self.x_from_y as int, y as int, u64::MAX as int, u32::MAX as int);
            lemma_mul_bounds(self.y_from_x as int, x as int, u64::MAX as int, u32::MAX as int);
            lemma_mul_bounds(self.y_from_y as int, y as int, u64::MAX as int, u32::MAX as int);
        }
        let nx = (self.x_from_x as u128 * x as u128 + self.x_from_y as u128 * y as u128
            + self.x_offset as u128) / (self.x_div as u128);
        let ny = (self.y_from_x as u128 * x as u128 + self.y_from_y as u128 * y as u128
            + self.y_offset as u128) / (self.y_div as u128);
        nx < w as u128 && ny < h as u128
    }
}

/// The active description of which pixels a consuming operation touches.
/// Exactly one variant is active at a time; `select`-style calls replace
/// it wholesale.
#[derive(Clone, Copy, Debug)]
pub enum PixelSelection {
    /// Every pixel.
    All,
    /// One full column, by index.
    Column(u32),
    /// One full row, by index.
    Line(u32),
    /// The contiguous rows `[lo, hi)`; empty when `lo >= hi`.
    LinesRange(u32, u32),
    /// The contiguous columns `[lo, hi)`; empty when `lo >= hi`.
    ColumnsRange(u32, u32),
    /// The pixels whose remapped coordinate is in bounds; the filter
    /// reads and writes at the original coordinate.
    Function(CoordMap),
    /// Two rows or two columns, by axis.
    Pair(u32, u32, PairSelection),
    /// The pixels on or inside the triangle.
    InsideTriangle(Triangle),
}

/// Whether the in-bounds coordinate `(x, y)` of a `w` by `h` raster is a
/// member of the selection `sel`.
pub open spec fn selects(sel: PixelSelection, w: int, h: int, x: int, y: int) -> bool {
    match sel {
        PixelSelection::All => true,
        PixelSelection::Column(c) => x == c,
        PixelSelection::Line(l) => y == l,
        PixelSelection::LinesRange(lo, hi) => lo <= y < hi,
        PixelSelection::ColumnsRange(lo, hi) => lo <= x < hi,
        PixelSelection::Function(m) => m.divides() && m.map_x(x, y) < w && m.map_y(x, y) < h,
        PixelSelection::Pair(a, b, PairSelection::Lines) => y == a || y == b,
        PixelSelection::Pair(a, b, PairSelection::Columns) => x == a || x == b,
        PixelSelection::InsideTriangle(t) => tri_contains(t, x, y),
    }
}

/// Whether every index the selection names lies inside a `w` by `h`
/// raster. A consuming operation on a selection for which this is false
/// fails with `IndexOutOfBounds` and changes nothing; an empty range
/// names no index and is always in bounds.
pub open spec fn sel_in_bounds(sel: PixelSelection, w: int, h: int) -> bool {
    match sel {
        PixelSelection::All => true,
        PixelSelection::Column(c) => c < w,
        PixelSelection::Line(l) => l < h,
        PixelSelection::LinesRange(lo, hi) => lo < hi ==> hi <= h,
        PixelSelection::ColumnsRange(lo, hi) => lo < hi ==> hi <= w,
        PixelSelection::Function(_) => true,
        PixelSelection::Pair(a, b, PairSelection::Lines) => a < h && b < h,
        PixelSelection::Pair(a, b, PairSelection::Columns) => a < w && b < w,
        PixelSelection::InsideTriangle(_) => true,
    }
}

/// The raster `b` after one filter application: every selected pixel is
/// replaced by the filter's image of it, every other pixel is kept.
pub open spec fn blend_model(
    b: Seq<Rgb>,
    w: int,
    h: int,
    sel: PixelSelection,
    f: RgbFilter,
) -> Seq<Rgb> {
    Seq::new(
        b.len(),
        |i: int|
            if selects(sel, w, h, i % w, i / w) {
                f.apply_spec(b[i])
            } else {
                b[i]
            },
    )
}

/// The raster `b` after exchanging rows `ra` and `rb` pixel for pixel.
pub open spec fn swap_lines_model(b: Seq<Rgb>, w: int, ra: int, rb: int) -> Seq<Rgb> {
    Seq::new(
        b.len(),
        |i: int|
            if i / w == ra {
                b[rb * w + i % w]
            } else if i / w == rb {
                b[ra * w + i % w]
            } else {
                b[i]
            },
    )
}

/// The raster `b` after exchanging columns `ca` and `cb` pixel for pixel.
pub open spec fn swap_columns_model(b: Seq<Rgb>, w: int, ca: int, cb: int) -> Seq<Rgb> {
    Seq::new(
        b.len(),
        |i: int|
            if i % w == ca {
                b[(i / w) * w + cb]
            } else if i % w == cb {
                b[(i / w) * w + ca]
            } else {
                b[i]
            },
    )
}

/// The raster `b` after exchanging the pair's two segments along its
/// axis.
pub open spec fn swap_pair_model(
    b: Seq<Rgb>,
    w: int,
    a: int,
    c: int,
    axis: PairSelection,
) -> Seq<Rgb> {
    match axis {
        PairSelection::Lines => swap_lines_model(b, w, a, c),
        PairSelection::Columns => swap_columns_model(b, w, a, c),
    }
}

/// How many pixels a run of the segments `[lo, hi)` holds when each
/// segment holds `seg` pixels; zero for an empty run.
pub open spec fn run_len(seg: int, lo: int, hi: int) -> int {
    if lo <= hi {
        (hi - lo) * seg
    } else {
        0
    }
}

/// The rows `[lo, hi)` of the raster `b` flattened into one row-major
/// pixel sequence; empty when `lo >= hi`.
pub open spec fn lines_range_model(b: Seq<Rgb>, w: int, lo: int, hi: int) -> Seq<Rgb> {
    if lo < hi {
        b.subrange(lo * w, hi * w)
    } else {
        Seq::empty()
    }
}

/// The columns `[lo, hi)` of the `w` by `h` raster `b` flattened into one
/// column-major pixel sequence (each column top to bottom, columns in
/// order); empty when `lo >= hi`.
pub open spec fn columns_range_model(b: Seq<Rgb>, w: int, h: int, lo: int, hi: int) -> Seq<Rgb> {
    if lo <= hi {
        Seq::new(((hi - lo) * h) as nat, |i: int| at(b, w, lo + i / h, i % h))
    } else {
        Seq::empty()
    }
}

/// The raster `b` with rows `[lo, hi)` replaced by the flat row-major
/// sequence `data`, split into one equal chunk per row.
pub open spec fn write_lines_model(b: Seq<Rgb>, w: int, lo: int, hi: int, data: Seq<Rgb>) -> Seq<
    Rgb,
> {
    Seq::new(
        b.len(),
        |i: int|
            if lo * w <= i < hi * w {
                data[i - lo * w]
            } else {
                b[i]
            },
    )
}

/// The raster `b` with columns `[lo, hi)` replaced by the flat
/// column-major sequence `data`, split into one equal chunk per column.
pub open spec fn write_columns_model(
    b: Seq<Rgb>,
    w: int,
    h: int,
    lo: int,
    hi: int,
    data: Seq<Rgb>,
) -> Seq<Rgb> {
    Seq::new(
        b.len(),
        |i: int|
            if lo <= i % w < hi {
                data[(i % w - lo) * h + i / w]
            } else {
                b[i]
            },
    )
}

} // verus!
