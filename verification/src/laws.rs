use crate::arith::lemma_flat_index;
use crate::arith::lemma_index_in_range;
use crate::arith::lemma_mul_bounds;
use crate::arith::lemma_mul_mono_left;
use crate::arith::lemma_row_major;
use crate::buffer::at;
use crate::geometry::cross;
use crate::geometry::tri_contains;
use crate::geometry::Point;
use crate::geometry::Triangle;
use crate::pixel::lemma_rgb_not_involutive;
use crate::pixel::Rgb;
use crate::pixel::RgbFilter;
use crate::selection::blend_model;
use crate::selection::columns_range_model;
use crate::selection::lines_range_model;
use crate::selection::sel_in_bounds;
use crate::selection::swap_columns_model;
use crate::selection::swap_lines_model;
use crate::selection::swap_pair_model;
use crate::selection::write_columns_model;
use crate::selection::write_lines_model;
use crate::selection::PairSelection;
use crate::selection::PixelSelection;
use vstd::prelude::*;

verus! {

/// Blending one in-bounds row with the bitwise inversion twice restores
/// the raster exactly: inverting every bit of a channel is an
/// involution, and no pixel outside the row is touched.
pub proof fn lemma_double_invert_restores_row(b: Seq<Rgb>, w: u32, h: u32, r: u32)
    requires
        b.len() == w as int * h as int,
        r < h,
    ensures
        blend_model(
            blend_model(b, w as int, h as int, PixelSelection::Line(r), RgbFilter::RgbNot),
            w as int,
            h as int,
            PixelSelection::Line(r),
            RgbFilter::RgbNot,
        ) == b,
{
    let wi = w as int;
    let hh = h as int;
    let b1 = blend_model(b, wi, hh, PixelSelection::Line(r), RgbFilter::RgbNot);
    let b2 = blend_model(b1, wi, hh, PixelSelection::Line(r), RgbFilter::RgbNot);
    assert forall|j: int| 0 <= j < b.len() implies b2[j] == b[j] by {
        lemma_rgb_not_involutive(b[j]);
    }
    assert(b2 =~= b);
}

/// Swapping an in-bounds pair of rows or columns twice restores the
/// raster exactly.
pub proof fn lemma_swap_pair_twice_restores(
    b: Seq<Rgb>,
    w: u32,
    h: u32,
    a: u32,
    c: u32,
    axis: PairSelection,
)
    requires
        b.len() == w as int * h as int,
        sel_in_bounds(PixelSelection::Pair(a, c, axis), w as int, h as int),
    ensures
        swap_pair_model(
            swap_pair_model(b, w as int, a as int, c as int, axis),
            w as int,
            a as int,
            c as int,
            axis,
        ) == b,
{
    let wi = w as int;
    let hh = h as int;
    let ai = a as int;
    let ci = c as int;
    match axis {
        PairSelection::Lines => {
            let b1 = swap_lines_model(b, wi, ai, ci);
            let b2 = swap_lines_model(b1, wi, ai, ci);
            assert forall|j: int| 0 <= j < b.len() implies b2[j] == b[j] by {
                lemma_flat_index(wi, hh, j);
                lemma_row_major(wi, ai, j % wi);
                lemma_row_major(wi, ci, j % wi);
                lemma_index_in_range(wi, hh, j % wi, ai);
                lemma_index_in_range(wi, hh, j % wi, ci);
            }
            assert(b2 =~= b);
        },
        PairSelection::Columns => {
            let b1 = swap_columns_model(b, wi, ai, ci);
            let b2 = swap_columns_model(b1, wi, ai, ci);
            assert forall|j: int| 0 <= j < b.len() implies b2[j] == b[j] by {
                lemma_flat_index(wi, hh, j);
                lemma_row_major(wi, j / wi, ai);
                lemma_row_major(wi, j / wi, ci);
                lemma_index_in_range(wi, hh, ai, j / wi);
                lemma_index_in_range(wi, hh, ci, j / wi);
            }
            assert(b2 =~= b);
        },
    }
}

/// Every point of the `[0, wm1] x [0, hm1]` rectangle lies on or inside
/// one of the two triangles that split the rectangle along its
/// diagonal: the upper-left half `((0,0), (wm1,0), (0,hm1))` or the
/// lower-right half `((wm1,0), (0,hm1), (wm1,hm1))`.
pub proof fn lemma_corner_triangles_cover(
    t1: Triangle,
    t2: Triangle,
    wm1: i32,
    hm1: i32,
    x: int,
    y: int,
)
    requires
        0 <= wm1,
        0 <= hm1,
        0 <= x <= wm1,
        0 <= y <= hm1,
        t1 == (Triangle {
            p1: Point { x: 0, y: 0 },
            p2: Point { x: wm1, y: 0 },
            p3: Point { x: 0, y: hm1 },
        }),
        t2 == (Triangle {
            p1: Point { x: wm1, y: 0 },
            p2: Point { x: 0, y: hm1 },
            p3: Point { x: wm1, y: hm1 },
        }),
    ensures
        tri_contains(t1, x, y) || tri_contains(t2, x, y),
{
    let wmi = wm1 as int;
    let hmi = hm1 as int;
    let d1 = cross(x, y, 0, 0, wmi, 0);
    let d2 = cross(x, y, wmi, 0, 0, hmi);
    let d3 = cross(x, y, 0, hmi, 0, 0);
    assert(d1 == wmi * y && 0 <= wmi * y) by (nonlinear_arith)
        requires
            d1 == (x - wmi) * (0 - 0) - (0 - wmi) * (y - 0),
            0 <= wmi,
            0 <= y,
    ;
    assert(d3 == x * hmi && 0 <= x * hmi) by (nonlinear_arith)
        requires
            d3 == (x - 0) * (hmi - 0) - (0 - 0) * (y - 0),
            0 <= hmi,
            0 <= x,
    ;
    if d2 >= 0 {
        assert(tri_contains(t1, x, y));
    } else {
        let e2 = cross(x, y, 0, hmi, wmi, hmi);
        let e3 = cross(x, y, wmi, hmi, wmi, 0);
        assert(e2 <= 0) by (nonlinear_arith)
            requires
                e2 == (x - wmi) * (hmi - hmi) - (0 - wmi) * (y - hmi),
                0 <= wmi,
                y <= hmi,
        ;
        assert(e3 <= 0) by (nonlinear_arith)
            requires
                e3 == (x - wmi) * (hmi - 0) - (wmi - wmi) * (y - 0),
                0 <= hmi,
                x <= wmi,
        ;
        assert(tri_contains(t2, x, y));
    }
}

/// Filling, with one solid color, the two triangles whose corners are
/// the raster's four corners split along the diagonal leaves every
/// pixel of the raster equal to that color.
pub proof fn lemma_corner_triangles_fill(
    b: Seq<Rgb>,
    w: u32,
    h: u32,
    t1: Triangle,
    t2: Triangle,
    color: Rgb,
)
    requires
        b.len() == w as int * h as int,
        1 <= w <= 0x8000_0000,
        1 <= h <= 0x8000_0000,
        t1 == (Triangle {
            p1: Point { x: 0, y: 0 },
            p2: Point { x: (w - 1) as i32, y: 0 },
            p3: Point { x: 0, y: (h - 1) as i32 },
        }),
        t2 == (Triangle {
            p1: Point { x: (w - 1) as i32, y: 0 },
            p2: Point { x: 0, y: (h - 1) as i32 },
            p3: Point { x: (w - 1) as i32, y: (h - 1) as i32 },
        }),
    ensures
        forall|x: int, y: int|
            0 <= x < w && 0 <= y < h ==> at(
                blend_model(
                    blend_model(
                        b,
                        w as int,
                        h as int,
                        PixelSelection::InsideTriangle(t1),
                        RgbFilter::Solid(color),
                    ),
                    w as int,
                    h as int,
                    PixelSelection::InsideTriangle(t2),
                    RgbFilter::Solid(color),
                ),
                w as int,
                x,
                y,
            ) == color,
{
    let wi = w as int;
    let hh = h as int;
    let b1 = blend_model(b, wi, hh, PixelSelection::InsideTriangle(t1), RgbFilter::Solid(color));
    let b2 = blend_model(b1, wi, hh, PixelSelection::InsideTriangle(t2), RgbFilter::Solid(color));
    assert forall|x: int, y: int| 0 <= x < w && 0 <= y < h implies at(b2, wi, x, y) == color by {
        lemma_index_in_range(wi, hh, x, y);
        lemma_row_major(wi, y, x);
        lemma_corner_triangles_cover(t1, t2, (w - 1) as i32, (h - 1) as i32, x, y);
    }
}

/// The bulk round trip over rows: flattening the rows `[lo, hi)` and
/// writing the same flat sequence straight back reproduces the raster
/// exactly, for every `lo <= hi <= h`.
pub proof fn lemma_lines_roundtrip(b: Seq<Rgb>, w: u32, h: u32, lo: u32, hi: u32)
    requires
        b.len() == w as int * h as int,
        lo <= hi,
        hi <= h,
    ensures
        write_lines_model(
            b,
            w as int,
            lo as int,
            hi as int,
            lines_range_model(b, w as int, lo as int, hi as int),
        ) == b,
{
    let wi = w as int;
    let hh = h as int;
    let li = lo as int;
    let hi_ = hi as int;
    let data = lines_range_model(b, wi, li, hi_);
    lemma_mul_mono_left(li, hi_, wi);
    lemma_mul_mono_left(hi_, hh, wi);
    assert(hh * wi == wi * hh) by (nonlinear_arith);
    assert((hi_ - li) * wi == hi_ * wi - li * wi) by (nonlinear_arith);
    let written = write_lines_model(b, wi, li, hi_, data);
    assert forall|j: int| 0 <= j < b.len() implies written[j] == b[j] by {
        if li * wi <= j < hi_ * wi {
            assert(data[j - li * wi] == b[j]);
        }
    }
    assert(written =~= b);
}

/// The bulk round trip over columns: flattening the columns `[lo, hi)`
/// and writing the same flat sequence straight back reproduces the
/// raster exactly, for every `lo <= hi <= w`.
pub proof fn lemma_columns_roundtrip(b: Seq<Rgb>, w: u32, h: u32, lo: u32, hi: u32)
    requires
        b.len() == w as int * h as int,
        lo <= hi,
        hi <= w,
    ensures
        write_columns_model(
            b,
            w as int,
            h as int,
            lo as int,
            hi as int,
            columns_range_model(b, w as int, h as int, lo as int, hi as int),
        ) == b,
{
    let wi = w as int;
    let hh = h as int;
    let li = lo as int;
    let hi_ = hi as int;
    let data = columns_range_model(b, wi, hh, li, hi_);
    lemma_mul_bounds(hi_ - li, hh, wi, hh);
    let written = write_columns_model(b, wi, hh, li, hi_, data);
    assert forall|j: int| 0 <= j < b.len() implies written[j] == b[j] by {
        lemma_flat_index(wi, hh, j);
        if li <= j % wi < hi_ {
            lemma_row_major(hh, j % wi - li, j / wi);
            lemma_mul_bounds(j % wi - li, hh, hi_ - li - 1, hh);
            assert((hi_ - li - 1) * hh + hh == (hi_ - li) * hh) by (nonlinear_arith);
            assert(data[(j % wi - li) * hh + j / wi] == at(b, wi, j % wi, j / wi));
        }
    }
    assert(written =~= b);
}

} // verus!
