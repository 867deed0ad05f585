use crate::arith::lemma_flat_index;
use crate::arith::lemma_index_in_range;
use crate::arith::lemma_row_major;
use crate::buffer::PixelBuffer;
use crate::geometry::Triangle;
use crate::pixel::Rgb;
use crate::pixel::RgbFilter;
use crate::selection::blend_model;
use crate::selection::sel_in_bounds;
use crate::selection::selects;
use crate::selection::swap_columns_model;
use crate::selection::swap_lines_model;
use crate::selection::CoordMap;
use crate::selection::PairSelection;
use crate::selection::PixelSelection;
use vstd::prelude::*;

verus! {

/// Apply `f` to every pixel of row `line`.
pub(crate) fn apply_line(img: &mut PixelBuffer, line: u32, f: RgbFilter)
    requires
        old(img).wf(),
        line < old(img).height,
    ensures
        final(img).wf(),
        final(img).width == old(img).width,
        final(img).height == old(img).height,
        final(img).pixels@ == blend_model(
            old(img).pixels@,
            old(img).width as int,
            old(img).height as int,
            PixelSelection::Line(line),
            f,
        ),
{
    let ghost orig = img.pixels@;
    let ghost wi = img.width as int;
    let ghost hh = img.height as int;
    let w = img.width;
    let mut x: u32 = 0;
    while x < w
        invariant
            img.wf(),
            img.width as int == wi,
            img.height as int == hh,
            w == img.width,
            line < img.height,
            x <= w,
            img.pixels@.len() == orig.len(),
            orig.len() == wi * hh,
            forall|j: int|
                0 <= j < orig.len() ==> img.pixels@[j] == (if j / wi == line && j % wi < x {
                    f.apply_spec(orig[j])
                } else {
                    orig[j]
                }),
        decreases w - x,
    {
        let ghost prev = img.pixels@;
        let p = img.get_pixel(x, line);
        let q = f.apply_filter(p);
        img.put_pixel(x, line, q);
        proof {
            let idx = line as int * wi + x as int;
            lemma_row_major(wi, line as int, x as int);
            lemma_index_in_range(wi, hh, x as int, line as int);
            assert(img.pixels@ == prev.update(idx, q));
            assert forall|j: int| 0 <= j < orig.len() implies img.pixels@[j] == (if j / wi == line
                && j % wi < x + 1 {
                f.apply_spec(orig[j])
            } else {
                orig[j]
            }) by {
                lemma_flat_index(wi, hh, j);
                assert(prev[j] == (if j / wi == line && j % wi < x {
                    f.apply_spec(orig[j])
                } else {
                    orig[j]
                }));
                if j != idx {
                    assert(img.pixels@[j] == prev[j]);
                }
            }
        }
        x = x + 1;
    }
    proof {
        assert forall|j: int| 0 <= j < orig.len() implies img.pixels@[j] == (if selects(
            PixelSelection::Line(line),
            wi,
            hh,
            j % wi,
            j / wi,
        ) {
            f.apply_spec(orig[j])
        } else {
            orig[j]
        }) by {
            lemma_flat_index(wi, hh, j);
        }
        assert(img.pixels@ =~= blend_model(orig, wi, hh, PixelSelection::Line(line), f));
    }
}

/// Apply `f` to every pixel of column `column`.
pub(crate) fn apply_column(img: &mut PixelBuffer, column: u32, f: RgbFilter)
    requires
        old(img).wf(),
        column < old(img).width,
    ensures
        final(img).wf(),
        final(img).width == old(img).width,
        final(img).height == old(img).height,
        final(img).pixels@ == blend_model(
            old(img).pixels@,
            old(img).width as int,
            old(img).height as int,
            PixelSelection::Column(column),
            f,
        ),
{
    let ghost orig = img.pixels@;
    let ghost wi = img.width as int;
    let ghost hh = img.height as int;
    let h = img.height;
    let mut y: u32 = 0;
    while y < h
        invariant
            img.wf(),
            img.width as int == wi,
            img.height as int == hh,
            h == img.height,
            column < img.width,
            y <= h,
            img.pixels@.len() == orig.len(),
            orig.len() == wi * hh,
            forall|j: int|
                0 <= j < orig.len() ==> img.pixels@[j] == (if j % wi == column && j / wi < y {
                    f.apply_spec(orig[j])
                } else {
                    orig[j]
                }),
        decreases h - y,
    {
        let ghost prev = img.pixels@;
        let p = img.get_pixel(column, y);
        let q = f.apply_filter(p);
        img.put_pixel(column, y, q);
        proof {
            let idx = y as int * wi + column as int;
            lemma_row_major(wi, y as int, column as int);
            lemma_index_in_range(wi, hh, column as int, y as int);
            assert(img.pixels@ == prev.update(idx, q));
            assert forall|j: int| 0 <= j < orig.len() implies img.pixels@[j] == (if j % wi
                == column && j / wi < y + 1 {
                f.apply_spec(orig[j])
            } else {
                orig[j]
            }) by {
                lemma_flat_index(wi, hh, j);
                assert(prev[j] == (if j % wi == column && j / wi < y {
                    f.apply_spec(orig[j])
                } else {
                    orig[j]
                }));
                if j != idx {
                    assert(img.pixels@[j] == prev[j]);
                }
            }
        }
        y = y + 1;
    }
    proof {
        assert forall|j: int| 0 <= j < orig.len() implies img.pixels@[j] == (if selects(
            PixelSelection::Column(column),
            wi,
            hh,
            j % wi,
            j / wi,
        ) {
            f.apply_spec(orig[j])
        } else {
            orig[j]
        }) by {
            lemma_flat_index(wi, hh, j);
        }
        assert(img.pixels@ =~= blend_model(orig, wi, hh, PixelSelection::Column(column), f));
    }
}

/// An empty row range selects nothing, so blending it changes nothing.
proof fn lemma_rows_empty(b: Seq<Rgb>, w: int, h: int, lo: u32, hi: u32, f: RgbFilter)
    requires
        hi <= lo,
    ensures
        blend_model(b, w, h, PixelSelection::LinesRange(lo, hi), f) == b,
{
    assert(blend_model(b, w, h, PixelSelection::LinesRange(lo, hi), f) =~= b);
}

/// An empty column range selects nothing, so blending it changes nothing.
proof fn lemma_cols_empty(b: Seq<Rgb>, w: int, h: int, lo: u32, hi: u32, f: RgbFilter)
    requires
        hi <= lo,
    ensures
        blend_model(b, w, h, PixelSelection::ColumnsRange(lo, hi), f) == b,
{
    assert(blend_model(b, w, h, PixelSelection::ColumnsRange(lo, hi), f) =~= b);
}

/// Filtering rows `[lo, r)` and then row `r` filters rows `[lo, r + 1)`.
proof fn lemma_rows_extend(
    b: Seq<Rgb>,
    w: int,
    h: int,
    lo: u32,
    r: u32,
    f: RgbFilter,
)
    requires
        lo <= r,
        r < u32::MAX,
    ensures
        blend_model(
            blend_model(b, w, h, PixelSelection::LinesRange(lo, r), f),
            w,
            h,
            PixelSelection::Line(r),
            f,
        ) == blend_model(b, w, h, PixelSelection::LinesRange(lo, (r + 1) as u32), f),
{
    let b1 = blend_model(b, w, h, PixelSelection::LinesRange(lo, r), f);
    let b2 = blend_model(b1, w, h, PixelSelection::Line(r), f);
    assert(b2 =~= blend_model(b, w, h, PixelSelection::LinesRange(lo, (r + 1) as u32), f));
}

/// Filtering columns `[lo, c)` and then column `c` filters `[lo, c + 1)`.
proof fn lemma_cols_extend(
    b: Seq<Rgb>,
    w: int,
    h: int,
    lo: u32,
    c: u32,
    f: RgbFilter,
)
    requires
        lo <= c,
        c < u32::MAX,
    ensures
        blend_model(
            blend_model(b, w, h, PixelSelection::ColumnsRange(lo, c), f),
            w,
            h,
            PixelSelection::Column(c),
            f,
        ) == blend_model(b, w, h, PixelSelection::ColumnsRange(lo, (c + 1) as u32), f),
{
    let b1 = blend_model(b, w, h, PixelSelection::ColumnsRange(lo, c), f);
    let b2 = blend_model(b1, w, h, PixelSelection::Column(c), f);
    assert(b2 =~= blend_model(b, w, h, PixelSelection::ColumnsRange(lo, (c + 1) as u32), f));
}

/// Filtering two distinct rows one after the other filters their union.
proof fn lemma_pair_rows(b: Seq<Rgb>, w: int, h: int, a: u32, c: u32, f: RgbFilter)
    requires
        a != c,
    ensures
        blend_model(
            blend_model(b, w, h, PixelSelection::Line(a), f),
            w,
            h,
            PixelSelection::Line(c),
            f,
        ) == blend_model(b, w, h, PixelSelection::Pair(a, c, PairSelection::Lines), f),
{
    let b1 = blend_model(b, w, h, PixelSelection::Line(a), f);
    let b2 = blend_model(b1, w, h, PixelSelection::Line(c), f);
    assert(b2 =~= blend_model(b, w, h, PixelSelection::Pair(a, c, PairSelection::Lines), f));
}

/// A pair naming the same row twice selects just that row: each member of
/// the union is still filtered exactly once.
proof fn lemma_pair_rows_same(b: Seq<Rgb>, w: int, h: int, a: u32, f: RgbFilter)
    ensures
        blend_model(b, w, h, PixelSelection::Line(a), f) == blend_model(
            b,
            w,
            h,
            PixelSelection::Pair(a, a, PairSelection::Lines),
            f,
        ),
{
    assert(blend_model(b, w, h, PixelSelection::Line(a), f) =~= blend_model(
        b,
        w,
        h,
        PixelSelection::Pair(a, a, PairSelection::Lines),
        f,
    ));
}

/// Filtering two distinct columns one after the other filters their union.
proof fn lemma_pair_cols(b: Seq<Rgb>, w: int, h: int, a: u32, c: u32, f: RgbFilter)
    requires
        a != c,
    ensures
        blend_model(
            blend_model(b, w, h, PixelSelection::Column(a), f),
            w,
            h,
            PixelSelection::Column(c),
            f,
        ) == blend_model(b, w, h, PixelSelection::Pair(a, c, PairSelection::Columns), f),
{
    let b1 = blend_model(b, w, h, PixelSelection::Column(a), f);
    let b2 = blend_model(b1, w, h, PixelSelection::Column(c), f);
    assert(b2 =~= blend_model(b, w, h, PixelSelection::Pair(a, c, PairSelection::Columns), f));
}

/// A pair naming the same column twice selects just that column.
proof fn lemma_pair_cols_same(b: Seq<Rgb>, w: int, h: int, a: u32, f: RgbFilter)
    ensures
        blend_model(b, w, h, PixelSelection::Column(a), f) == blend_model(
            b,
            w,
            h,
            PixelSelection::Pair(a, a, PairSelection::Columns),
            f,
        ),
{
    assert(blend_model(b, w, h, PixelSelection::Column(a), f) =~= blend_model(
        b,
        w,
        h,
        PixelSelection::Pair(a, a, PairSelection::Columns),
        f,
    ));
}

/// Apply `f` to every pixel of the contiguous rows `[lines_start,
/// lines_end)`; an empty range touches nothing.
pub(crate) fn apply_lines(img: &mut PixelBuffer, lines_start: u32, lines_end: u32, f: RgbFilter)
    requires
        old(img).wf(),
        lines_start < lines_end ==> lines_end <= old(img).height,
    ensures
        final(img).wf(),
        final(img).width == old(img).width,
        final(img).height == old(img).height,
        final(img).pixels@ == blend_model(
            old(img).pixels@,
            old(img).width as int,
            old(img).height as int,
            PixelSelection::LinesRange(lines_start, lines_end),
            f,
        ),
{
    let ghost orig = img.pixels@;
    let ghost wi = img.width as int;
    let ghost hh = img.height as int;
    if lines_start >= lines_end {
        proof {
            lemma_rows_empty(orig, wi, hh, lines_start, lines_end, f);
        }
        return ;
    }
    proof {
        lemma_rows_empty(orig, wi, hh, lines_start, lines_start, f);
    }
    let mut row = lines_start;
    while row < lines_end
        invariant
            img.wf(),
            img.width as int == wi,
            img.height as int == hh,
            lines_start <= row <= lines_end,
            lines_end <= img.height,
            img.pixels@ == blend_model(
                orig,
                wi,
                hh,
                PixelSelection::LinesRange(lines_start, row),
                f,
            ),
        decreases lines_end - row,
    {
        apply_line(img, row, f);
        proof {
            lemma_rows_extend(orig, wi, hh, lines_start, row, f);
        }
        row = row + 1;
    }
}

/// Apply `f` to every pixel of the contiguous columns `[columns_start,
/// columns_end)`; an empty range touches nothing.
pub(crate) fn apply_columns(
    img: &mut PixelBuffer,
    columns_start: u32,
    columns_end: u32,
    f: RgbFilter,
)
    requires
        old(img).wf(),
        columns_start < columns_end ==> columns_end <= old(img).width,
    ensures
        final(img).wf(),
        final(img).width == old(img).width,
        final(img).height == old(img).height,
        final(img).pixels@ == blend_model(
            old(img).pixels@,
            old(img).width as int,
            old(img).height as int,
            PixelSelection::ColumnsRange(columns_start, columns_end),
            f,
        ),
{
    let ghost orig = img.pixels@;
    let ghost wi = img.width as int;
    let ghost hh = img.height as int;
    if columns_start >= columns_end {
        proof {
            lemma_cols_empty(orig, wi, hh, columns_start, columns_end, f);
        }
        return ;
    }
    proof {
        lemma_cols_empty(orig, wi, hh, columns_start, columns_start, f);
    }
    let mut col = columns_start;
    while col < columns_end
        invariant
            img.wf(),
            img.width as int == wi,
            img.height as int == hh,
            columns_start <= col <= columns_end,
            columns_end <= img.width,
            img.pixels@ == blend_model(
                orig,
                wi,
                hh,
                PixelSelection::ColumnsRange(columns_start, col),
                f,
            ),
        decreases columns_end - col,
    {
        apply_column(img, col, f);
        proof {
            lemma_cols_extend(orig, wi, hh, columns_start, col, f);
        }
        col = col + 1;
    }
}

/// Apply `f` once to every pixel of the union of the two rows (or two
/// columns) the pair names; naming the same segment twice filters it
/// once.
pub(crate) fn apply_pair(
    img: &mut PixelBuffer,
    one_segment: u32,
    other_segment: u32,
    pair_selection: PairSelection,
    f: RgbFilter,
)
    requires
        old(img).wf(),
        sel_in_bounds(
            PixelSelection::Pair(one_segment, other_segment, pair_selection),
            old(img).width as int,
            old(img).height as int,
        ),
    ensures
        final(img).wf(),
        final(img).width == old(img).width,
        final(img).height == old(img).height,
        final(img).pixels@ == blend_model(
            old(img).pixels@,
            old(img).width as int,
            old(img).height as int,
            PixelSelection::Pair(one_segment, other_segment, pair_selection),
            f,
        ),
{
    let ghost orig = img.pixels@;
    let ghost wi = img.width as int;
    let ghost hh = img.height as int;
    match pair_selection {
        PairSelection::Lines => {
            if one_segment == other_segment {
                apply_line(img, one_segment, f);
                proof {
                    lemma_pair_rows_same(orig, wi, hh, one_segment, f);
                }
            } else {
                apply_line(img, one_segment, f);
                apply_line(img, other_segment, f);
                proof {
                    lemma_pair_rows(orig, wi, hh, one_segment, other_segment, f);
                }
            }
        },
        PairSelection::Columns => {
            if one_segment == other_segment {
                apply_column(img, one_segment, f);
                proof {
                    lemma_pair_cols_same(orig, wi, hh, one_segment, f);
                }
            } else {
                apply_column(img, one_segment, f);
                apply_column(img, other_segment, f);
                proof {
                    lemma_pair_cols(orig, wi, hh, one_segment, other_segment, f);
                }
            }
        },
    }
}

/// Whether `(x, y)` is a member of the selection, decided exactly as
/// [`selects`] states it.
fn selected_at(sel: PixelSelection, w: u32, h: u32, x: u32, y: u32) -> (hit: bool)
    ensures
        hit == selects(sel, w as int, h as int, x as int, y as int),
{
    match sel {
        PixelSelection::All => true,
        PixelSelection::Column(c) => x == c,
        PixelSelection::Line(l) => y == l,
        PixelSelection::LinesRange(lo, hi) => lo <= y && y < hi,
        PixelSelection::ColumnsRange(lo, hi) => lo <= x && x < hi,
        PixelSelection::Function(m) => m.maps_into(x, y, w, h),
        PixelSelection::Pair(a, b, PairSelection::Lines) => y == a || y == b,
        PixelSelection::Pair(a, b, PairSelection::Columns) => x == a || x == b,
        PixelSelection::InsideTriangle(t) => t.contains_pixel(x, y),
    }
}

/// Apply `f` to every pixel the selection covers, scanning the whole
/// raster and testing membership coordinate by coordinate.
pub(crate) fn apply_selection(img: &mut PixelBuffer, sel: PixelSelection, f: RgbFilter)
    requires
        old(img).wf(),
    ensures
        final(img).wf(),
        final(img).width == old(img).width,
        final(img).height == old(img).height,
        final(img).pixels@ == blend_model(
            old(img).pixels@,
            old(img).width as int,
            old(img).height as int,
            sel,
            f,
        ),
{
    let ghost orig = img.pixels@;
    let ghost wi = img.width as int;
    let ghost hh = img.height as int;
    let w = img.width;
    let h = img.height;
    let mut y: u32 = 0;
    while y < h
        invariant
            img.wf(),
            img.width == w,
            img.height == h,
            wi == w as int,
            hh == h as int,
            y <= h,
            img.pixels@.len() == orig.len(),
            orig.len() == wi * hh,
            forall|j: int|
                0 <= j < orig.len() ==> img.pixels@[j] == (if j / wi < y && selects(
                    sel,
                    wi,
                    hh,
                    j % wi,
                    j / wi,
                ) {
                    f.apply_spec(orig[j])
                } else {
                    orig[j]
                }),
        decreases h - y,
    {
        let mut x: u32 = 0;
        while x < w
            invariant
                img.wf(),
                img.width == w,
                img.height == h,
                wi == w as int,
                hh == h as int,
                y < h,
                x <= w,
                img.pixels@.len() == orig.len(),
                orig.len() == wi * hh,
                forall|j: int|
                    0 <= j < orig.len() ==> img.pixels@[j] == (if (j / wi < y || (j / wi == y && j
                        % wi < x)) && selects(sel, wi, hh, j % wi, j / wi) {
                        f.apply_spec(orig[j])
                    } else {
                        orig[j]
                    }),
            decreases w - x,
        {
            let ghost prev = img.pixels@;
            let hit = selected_at(sel, w, h, x, y);
            if hit {
                let p = img.get_pixel(x, y);
                let q = f.apply_filter(p);
                img.put_pixel(x, y, q);
            }
            proof {
                let idx = y as int * wi + x as int;
                lemma_row_major(wi, y as int, x as int);
                lemma_index_in_range(wi, hh, x as int, y as int);
                assert forall|j: int| 0 <= j < orig.len() implies img.pixels@[j] == (if (j / wi < y
                    || (j / wi == y && j % wi < x + 1)) && selects(sel, wi, hh, j % wi, j / wi) {
                    f.apply_spec(orig[j])
                } else {
                    orig[j]
                }) by {
                    lemma_flat_index(wi, hh, j);
                    assert(prev[j] == (if (j / wi < y || (j / wi == y && j % wi < x)) && selects(
                        sel,
                        wi,
                        hh,
                        j % wi,
                        j / wi,
                    ) {
                        f.apply_spec(orig[j])
                    } else {
                        orig[j]
                    }));
                    if j != idx {
                        assert(img.pixels@[j] == prev[j]);
                    }
                }
            }
            x = x + 1;
        }
        proof {
            assert forall|j: int| 0 <= j < orig.len() implies img.pixels@[j] == (if j / wi < y + 1
                && selects(sel, wi, hh, j % wi, j / wi) {
                f.apply_spec(orig[j])
            } else {
                orig[j]
            }) by {
                lemma_flat_index(wi, hh, j);
            }
        }
        y = y + 1;
    }
    proof {
        assert forall|j: int| 0 <= j < orig.len() implies img.pixels@[j] == (if selects(
            sel,
            wi,
            hh,
            j % wi,
            j / wi,
        ) {
            f.apply_spec(orig[j])
        } else {
            orig[j]
        }) by {
            lemma_flat_index(wi, hh, j);
        }
        assert(img.pixels@ =~= blend_model(orig, wi, hh, sel, f));
    }
}

/// Apply `f` to every pixel of the raster.
pub(crate) fn apply_all(img: &mut PixelBuffer, f: RgbFilter)
    requires
        old(img).wf(),
    ensures
        final(img).wf(),
        final(img).width == old(img).width,
        final(img).height == old(img).height,
        final(img).pixels@ == blend_model(
            old(img).pixels@,
            old(img).width as int,
            old(img).height as int,
            PixelSelection::All,
            f,
        ),
{
    apply_selection(img, PixelSelection::All, f)
}

/// Apply `f` to every pixel whose remapped coordinate lands in bounds;
/// the pixel is read and written at its original coordinate.
pub(crate) fn apply_function(img: &mut PixelBuffer, function: CoordMap, f: RgbFilter)
    requires
        old(img).wf(),
    ensures
        final(img).wf(),
        final(img).width == old(img).width,
        final(img).height == old(img).height,
        final(img).pixels@ == blend_model(
            old(img).pixels@,
            old(img).width as int,
            old(img).height as int,
            PixelSelection::Function(function),
            f,
        ),
{
    apply_selection(img, PixelSelection::Function(function), f)
}

/// Apply `f` to every pixel on or inside the triangle.
pub(crate) fn apply_inside_triangle(img: &mut PixelBuffer, triangle: Triangle, f: RgbFilter)
    requires
        old(img).wf(),
    ensures
        final(img).wf(),
        final(img).width == old(img).width,
        final(img).height == old(img).height,
        final(img).pixels@ == blend_model(
            old(img).pixels@,
            old(img).width as int,
            old(img).height as int,
            PixelSelection::InsideTriangle(triangle),
            f,
        ),
{
    apply_selection(img, PixelSelection::InsideTriangle(triangle), f)
}

/// Exchange every pixel of row `one_line` with the pixel at the same
/// column of row `other_line`.
pub(crate) fn swap_lines(img: &mut PixelBuffer, one_line: u32, other_line: u32)
    requires
        old(img).wf(),
        one_line < old(img).height,
        other_line < old(img).height,
    ensures
        final(img).wf(),
        final(img).width == old(img).width,
        final(img).height == old(img).height,
        final(img).pixels@ == swap_lines_model(
            old(img).pixels@,
            old(img).width as int,
            one_line as int,
            other_line as int,
        ),
{
    let ghost orig = img.pixels@;
    let ghost wi = img.width as int;
    let ghost hh = img.height as int;
    let ghost ra = one_line as int;
    let ghost rb = other_line as int;
    let w = img.width;
    let mut x: u32 = 0;
    while x < w
        invariant
            img.wf(),
            img.width as int == wi,
            img.height as int == hh,
            w == img.width,
            one_line < img.height,
            other_line < img.height,
            ra == one_line as int,
            rb == other_line as int,
            x <= w,
            img.pixels@.len() == orig.len(),
            orig.len() == wi * hh,
            forall|j: int|
                0 <= j < orig.len() ==> img.pixels@[j] == (if j / wi == ra && j % wi < x {
                    orig[rb * wi + j % wi]
                } else if j / wi == rb && j % wi < x {
                    orig[ra * wi + j % wi]
                } else {
                    orig[j]
                }),
        decreases w - x,
    {
        let ghost prev = img.pixels@;
        let pa = img.get_pixel(x, one_line);
        let pb = img.get_pixel(x, other_line);
        img.put_pixel(x, one_line, pb);
        img.put_pixel(x, other_line, pa);
        proof {
            let idxa = ra * wi + x as int;
            let idxb = rb * wi + x as int;
            lemma_row_major(wi, ra, x as int);
            lemma_row_major(wi, rb, x as int);
            lemma_index_in_range(wi, hh, x as int, ra);
            lemma_index_in_range(wi, hh, x as int, rb);
            assert(img.pixels@ == prev.update(idxa, pb).update(idxb, pa));
            assert forall|j: int| 0 <= j < orig.len() implies img.pixels@[j] == (if j / wi == ra
                && j % wi < x + 1 {
                orig[rb * wi + j % wi]
            } else if j / wi == rb && j % wi < x + 1 {
                orig[ra * wi + j % wi]
            } else {
                orig[j]
            }) by {
                lemma_flat_index(wi, hh, j);
                assert(prev[j] == (if j / wi == ra && j % wi < x {
                    orig[rb * wi + j % wi]
                } else if j / wi == rb && j % wi < x {
                    orig[ra * wi + j % wi]
                } else {
                    orig[j]
                }));
                if j != idxa && j != idxb {
                    assert(img.pixels@[j] == prev[j]);
                }
            }
        }
        x = x + 1;
    }
    proof {
        assert forall|j: int| 0 <= j < orig.len() implies img.pixels@[j] == swap_lines_model(
            orig,
            wi,
            ra,
            rb,
        )[j] by {
            lemma_flat_index(wi, hh, j);
        }
        assert(img.pixels@ =~= swap_lines_model(orig, wi, ra, rb));
    }
}

/// Exchange every pixel of column `one_column` with the pixel at the
/// same row of column `other_column`.
pub(crate) fn swap_columns(img: &mut PixelBuffer, one_column: u32, other_column: u32)
    requires
        old(img).wf(),
        one_column < old(img).width,
        other_column < old(img).width,
    ensures
        final(img).wf(),
        final(img).width == old(img).width,
        final(img).height == old(img).height,
        final(img).pixels@ == swap_columns_model(
            old(img).pixels@,
            old(img).width as int,
            one_column as int,
            other_column as int,
        ),
{
    let ghost orig = img.pixels@;
    let ghost wi = img.width as int;
    let ghost hh = img.height as int;
    let ghost ca = one_column as int;
    let ghost cb = other_column as int;
    let h = img.height;
    let mut y: u32 = 0;
    while y < h
        invariant
            img.wf(),
            img.width as int == wi,
            img.height as int == hh,
            h == img.height,
            one_column < img.width,
            other_column < img.width,
            ca == one_column as int,
            cb == other_column as int,
            y <= h,
            img.pixels@.len() == orig.len(),
            orig.len() == wi * hh,
            forall|j: int|
                0 <= j < orig.len() ==> img.pixels@[j] == (if j % wi == ca && j / wi < y {
                    orig[(j / wi) * wi + cb]
                } else if j % wi == cb && j / wi < y {
                    orig[(j / wi) * wi + ca]
                } else {
                    orig[j]
                }),
        decreases h - y,
    {
        let ghost prev = img.pixels@;
        let pa = img.get_pixel(one_column, y);
        let pb = img.get_pixel(other_column, y);
        img.put_pixel(one_column, y, pb);
        img.put_pixel(other_column, y, pa);
        proof {
            let idxa = y as int * wi + ca;
            let idxb = y as int * wi + cb;
            lemma_row_major(wi, y as int, ca);
            lemma_row_major(wi, y as int, cb);
            lemma_index_in_range(wi, hh, ca, y as int);
            lemma_index_in_range(wi, hh, cb, y as int);
            assert(img.pixels@ == prev.update(idxa, pb).update(idxb, pa));
            assert forall|j: int| 0 <= j < orig.len() implies img.pixels@[j] == (if j % wi == ca
                && j / wi < y + 1 {
                orig[(j / wi) * wi + cb]
            } else if j % wi == cb && j / wi < y + 1 {
                orig[(j / wi) * wi + ca]
            } else {
                orig[j]
            }) by {
                lemma_flat_index(wi, hh, j);
                assert(prev[j] == (if j % wi == ca && j / wi < y {
                    orig[(j / wi) * wi + cb]
                } else if j % wi == cb && j / wi < y {
                    orig[(j / wi) * wi + ca]
                } else {
                    orig[j]
                }));
                if j != idxa && j != idxb {
                    assert(img.pixels@[j] == prev[j]);
                }
            }
        }
        y = y + 1;
    }
    proof {
        assert forall|j: int| 0 <= j < orig.len() implies img.pixels@[j] == swap_columns_model(
            orig,
            wi,
            ca,
            cb,
        )[j] by {
            lemma_flat_index(wi, hh, j);
        }
        assert(img.pixels@ =~= swap_columns_model(orig, wi, ca, cb));
    }
}

} // verus!
