use crate::apply::apply_all;
use crate::apply::apply_column;
use crate::apply::apply_columns;
use crate::apply::apply_function;
use crate::apply::apply_inside_triangle;
use crate::apply::apply_line;
use crate::apply::apply_lines;
use crate::apply::apply_pair;
use crate::apply::swap_columns;
use crate::apply::swap_lines;
use crate::buffer::PixelBuffer;
use crate::error::Error;
use crate::geometry::Point;
use crate::geometry::Triangle;
use crate::pixel::Rgb;
use crate::pixel::RgbFilter;
use crate::selection::blend_model;
use crate::selection::sel_in_bounds;
use crate::selection::swap_lines_model;
use crate::selection::swap_pair_model;
use crate::selection::CoordMap;
use crate::selection::PairSelection;
use crate::selection::PixelSelection;
use vstd::prelude::*;

verus! {

/// The coordinate remapping used by [`MyRgbImage::mess_everything`]:
/// `(x, y)` maps to `(x, y + x * 3 / 7)`.
pub open spec fn mess_map() -> CoordMap {
    CoordMap {
        x_from_x: 1,
        x_from_y: 0,
        x_offset: 0,
        x_div: 1,
        y_from_x: 3,
        y_from_y: 7,
        y_offset: 0,
        y_div: 7,
    }
}

/// One scrambling pass over the row pairs `(a, a + 2)` for `a = 0, 3,
/// 6, ...` while `a + 2` is a valid row: each pair has its channels
/// sorted and is then swapped.
pub open spec fn mess_pairs(b: Seq<Rgb>, w: int, h: int, a: int) -> Seq<Rgb>
    decreases h - a,
{
    if a + 2 < h {
        let sorted = blend_model(
            b,
            w,
            h,
            PixelSelection::Pair(a as u32, (a + 2) as u32, PairSelection::Lines),
            RgbFilter::SorteColors,
        );
        mess_pairs(swap_lines_model(sorted, w, a, a + 2), w, h, a + 3)
    } else {
        b
    }
}

/// The selection left active after the row-pair passes: the last pair
/// visited, or `cur` when no pair fits the raster.
pub open spec fn mess_pairs_selection(h: int, a: int, cur: PixelSelection) -> PixelSelection
    decreases h - a,
{
    if a + 2 < h {
        mess_pairs_selection(
            h,
            a + 3,
            PixelSelection::Pair(a as u32, (a + 2) as u32, PairSelection::Lines),
        )
    } else {
        cur
    }
}

/// Everything [`MyRgbImage::mess_everything`] does to the raster, in
/// order: magenta and a channel mask over the top quarter of the rows,
/// cyan over the leftmost quarter of the columns, inversion and a left
/// shift over the leftmost half, inversion over the pixels kept by
/// [`mess_map`], then the row-pair passes.
pub open spec fn mess_model(b: Seq<Rgb>, w: u32, h: u32) -> Seq<Rgb> {
    let wi = w as int;
    let hh = h as int;
    let quarter_rows = PixelSelection::LinesRange(0, (h / 4) as u32);
    let b1 = blend_model(b, wi, hh, quarter_rows, RgbFilter::Magenta);
    let b2 = blend_model(b1, wi, hh, quarter_rows, RgbFilter::RgbXorMask(Rgb { r: 0, g: 20, b: 50 }));
    let b3 = blend_model(b2, wi, hh, PixelSelection::ColumnsRange(0, (w / 4) as u32), RgbFilter::Cyan);
    let half_cols = PixelSelection::ColumnsRange(0, (w / 2) as u32);
    let b4 = blend_model(b3, wi, hh, half_cols, RgbFilter::RgbNot);
    let b5 = blend_model(b4, wi, hh, half_cols, RgbFilter::RgbShlOnce);
    let b6 = blend_model(b5, wi, hh, PixelSelection::Function(mess_map()), RgbFilter::RgbNot);
    mess_pairs(b6, wi, hh, 0)
}

/// The filter pipeline: a pixel buffer owned exclusively for the length
/// of the chain, and the active selection the next consuming operation
/// will use.
///
/// A `select`-style call (`for_all`, `for_line`, ...) replaces the
/// selection wholesale and touches no pixel; `blend` and `swap_pair`
/// consume the selection, validate its indices, and mutate the buffer in
/// place, all-or-nothing. The buffer is handed back by [`extract`].
///
/// [`extract`]: MyRgbImage::extract
pub struct MyRgbImage {
    pub selection: PixelSelection,
    pub img: PixelBuffer,
}

impl MyRgbImage {
    /// The held buffer is well-formed.
    pub open spec fn wf(self) -> bool {
        self.img.wf()
    }

    /// Wrap a buffer; the initial selection covers every pixel.
    pub fn new(a_image: PixelBuffer) -> (res: MyRgbImage)
        ensures
            res.selection == PixelSelection::All,
            res.img == a_image,
    {
        MyRgbImage { selection: PixelSelection::All, img: a_image }
    }

    /// Select every pixel.
    pub fn for_all(&mut self)
        ensures
            final(self).selection == PixelSelection::All,
            final(self).img == old(self).img,
    {
        self.selection = PixelSelection::All;
    }

    /// Select one full row.
    pub fn for_line(&mut self, line: u32)
        ensures
            final(self).selection == PixelSelection::Line(line),
            final(self).img == old(self).img,
    {
        self.selection = PixelSelection::Line(line);
    }

    /// Select one full column.
    pub fn for_column(&mut self, column: u32)
        ensures
            final(self).selection == PixelSelection::Column(column),
            final(self).img == old(self).img,
    {
        self.selection = PixelSelection::Column(column);
    }

    /// Select the contiguous rows `[lines_start, lines_end)`.
    pub fn for_lines(&mut self, lines_start: u32, lines_end: u32)
        ensures
            final(self).selection == PixelSelection::LinesRange(lines_start, lines_end),
            final(self).img == old(self).img,
    {
        self.selection = PixelSelection::LinesRange(lines_start, lines_end);
    }

    /// Select the contiguous columns `[columns_start, columns_end)`.
    pub fn for_columns(&mut self, columns_start: u32, columns_end: u32)
        ensures
            final(self).selection == PixelSelection::ColumnsRange(columns_start, columns_end),
            final(self).img == old(self).img,
    {
        self.selection = PixelSelection::ColumnsRange(columns_start, columns_end);
    }

    /// Select the pixels whose image under the coordinate map is in
    /// bounds.
    pub fn for_function(&mut self, function: CoordMap)
        ensures
            final(self).selection == PixelSelection::Function(function),
            final(self).img == old(self).img,
    {
        self.selection = PixelSelection::Function(function);
    }

    /// Select the pixels on or inside the triangle.
    pub fn for_inside_triangle(&mut self, tri: Triangle)
        ensures
            final(self).selection == PixelSelection::InsideTriangle(tri),
            final(self).img == old(self).img,
    {
        self.selection = PixelSelection::InsideTriangle(tri);
    }

    /// Select a pair of rows or columns.
    pub fn for_pair(&mut self, one_segment: u32, other_segment: u32, pair_selection: PairSelection)
        ensures
            final(self).selection == PixelSelection::Pair(
                one_segment,
                other_segment,
                pair_selection,
            ),
            final(self).img == old(self).img,
    {
        self.selection = PixelSelection::Pair(one_segment, other_segment, pair_selection);
    }

    /// Apply the filter to every pixel the active selection covers.
    ///
    /// Fails with [`Error::IndexOutOfBounds`], leaving the buffer
    /// untouched, exactly when the selection names a row, column or pair
    /// index at or beyond the buffer's corresponding dimension; an empty
    /// range names no index and succeeds on nothing.
    pub fn blend(&mut self, rgb_filter: RgbFilter) -> (res: Result<(), Error>)
        requires
            old(self).wf(),
        ensures
            final(self).wf(),
            final(self).selection == old(self).selection,
            final(self).img.width == old(self).img.width,
            final(self).img.height == old(self).img.height,
            res is Ok <==> sel_in_bounds(
                old(self).selection,
                old(self).img.width as int,
                old(self).img.height as int,
            ),
            res is Ok ==> final(self).img.pixels@ == blend_model(
                old(self).img.pixels@,
                old(self).img.width as int,
                old(self).img.height as int,
                old(self).selection,
                rgb_filter,
            ),
            res matches Err(e) ==> e is IndexOutOfBounds && *final(self) == *old(self),
    {
        let w = self.img.width;
        let h = self.img.height;
        match self.selection {
            PixelSelection::All => {
                apply_all(&mut self.img, rgb_filter);
                Ok(())
            },
            PixelSelection::Line(line) => {
                if line < h {
                    apply_line(&mut self.img, line, rgb_filter);
                    Ok(())
                } else {
                    Err(Error::IndexOutOfBounds)
                }
            },
            PixelSelection::Column(column) => {
                if column < w {
                    apply_column(&mut self.img, column, rgb_filter);
                    Ok(())
                } else {
                    Err(Error::IndexOutOfBounds)
                }
            },
            PixelSelection::LinesRange(lines_start, lines_end) => {
                if lines_start >= lines_end || lines_end <= h {
                    apply_lines(&mut self.img, lines_start, lines_end, rgb_filter);
                    Ok(())
                } else {
                    Err(Error::IndexOutOfBounds)
                }
            },
            PixelSelection::ColumnsRange(columns_start, columns_end) => {
                if columns_start >= columns_end || columns_end <= w {
                    apply_columns(&mut self.img, columns_start, columns_end, rgb_filter);
                    Ok(())
                } else {
                    Err(Error::IndexOutOfBounds)
                }
            },
            PixelSelection::Function(function) => {
                apply_function(&mut self.img, function, rgb_filter);
                Ok(())
            },
            PixelSelection::Pair(one_segment, other_segment, pair_selection) => {
                let in_bounds = match pair_selection {
                    PairSelection::Lines => one_segment < h && other_segment < h,
                    PairSelection::Columns => one_segment < w && other_segment < w,
                };
                if in_bounds {
                    apply_pair(&mut self.img, one_segment, other_segment, pair_selection,
                        rgb_filter);
                    Ok(())
                } else {
                    Err(Error::IndexOutOfBounds)
                }
            },
            PixelSelection::InsideTriangle(tri) => {
                apply_inside_triangle(&mut self.img, tri, rgb_filter);
                Ok(())
            },
        }
    }

    /// When the active selection is a pair, exchange its two rows (or
    /// columns) pixel for pixel; with any other selection this is a
    /// no-op.
    ///
    /// Fails with [`Error::IndexOutOfBounds`], leaving the buffer
    /// untouched, exactly when either pair index is at or beyond the
    /// buffer's corresponding dimension. A pair naming the same segment
    /// twice swaps it with itself and changes nothing.
    pub fn swap_pair(&mut self) -> (res: Result<(), Error>)
        requires
            old(self).wf(),
        ensures
            final(self).wf(),
            final(self).selection == old(self).selection,
            final(self).img.width == old(self).img.width,
            final(self).img.height == old(self).img.height,
            match old(self).selection {
                PixelSelection::Pair(a, b, axis) => {
                    &&& (res is Ok <==> sel_in_bounds(
                        old(self).selection,
                        old(self).img.width as int,
                        old(self).img.height as int,
                    ))
                    &&& res is Ok ==> final(self).img.pixels@ == swap_pair_model(
                        old(self).img.pixels@,
                        old(self).img.width as int,
                        a as int,
                        b as int,
                        axis,
                    )
                    &&& res matches Err(e) ==> e is IndexOutOfBounds && *final(self) == *old(self)
                },
                _ => res is Ok && *final(self) == *old(self),
            },
    {
        match self.selection {
            PixelSelection::Pair(one_segment, other_segment, pair_selection) => {
                match pair_selection {
                    PairSelection::Lines => {
                        let h = self.img.height;
                        if one_segment < h && other_segment < h {
                            swap_lines(&mut self.img, one_segment, other_segment);
                            Ok(())
                        } else {
                            Err(Error::IndexOutOfBounds)
                        }
                    },
                    PairSelection::Columns => {
                        let w = self.img.width;
                        if one_segment < w && other_segment < w {
                            swap_columns(&mut self.img, one_segment, other_segment);
                            Ok(())
                        } else {
                            Err(Error::IndexOutOfBounds)
                        }
                    },
                }
            },
            _ => Ok(()),
        }
    }

    /// Select the triangle with the given corners and fill it with the
    /// filter in one call. A triangle never names an out-of-range index,
    /// so this cannot fail.
    pub fn draw_triangle(&mut self, p1: Point, p2: Point, p3: Point, filter: RgbFilter)
        requires
            old(self).wf(),
        ensures
            final(self).wf(),
            final(self).img.width == old(self).img.width,
            final(self).img.height == old(self).img.height,
            final(self).selection == PixelSelection::InsideTriangle(Triangle { p1, p2, p3 }),
            final(self).img.pixels@ == blend_model(
                old(self).img.pixels@,
                old(self).img.width as int,
                old(self).img.height as int,
                PixelSelection::InsideTriangle(Triangle { p1, p2, p3 }),
                filter,
            ),
    {
        let tri = Triangle::new(p1, p2, p3);
        self.for_inside_triangle(tri);
        apply_inside_triangle(&mut self.img, tri, filter);
    }

    /// Scramble the whole raster with a fixed choreography: mask the
    /// top quarter of the rows, tint and invert the leftmost columns,
    /// invert the pixels kept by the [`mess_map`] remapping, then sort
    /// and swap the row pairs `(0, 2), (3, 5), ...`.
    ///
    /// Every index this sequence names is in bounds by construction, so
    /// unlike a hand-built chain it cannot fail.
    pub fn mess_everything(&mut self)
        requires
            old(self).wf(),
        ensures
            final(self).wf(),
            final(self).img.width == old(self).img.width,
            final(self).img.height == old(self).img.height,
            final(self).img.pixels@ == mess_model(
                old(self).img.pixels@,
                old(self).img.width,
                old(self).img.height,
            ),
            final(self).selection == mess_pairs_selection(
                old(self).img.height as int,
                0,
                PixelSelection::Function(mess_map()),
            ),
    {
        let w = self.img.width;
        let h = self.img.height;
        let ghost wi = w as int;
        let ghost hh = h as int;
        self.for_lines(0, h / 4);
        apply_lines(&mut self.img, 0, h / 4, RgbFilter::Magenta);
        apply_lines(&mut self.img, 0, h / 4, RgbFilter::RgbXorMask(Rgb { r: 0, g: 20, b: 50 }));
        self.for_columns(0, w / 4);
        apply_columns(&mut self.img, 0, w / 4, RgbFilter::Cyan);
        self.for_columns(0, w / 2);
        apply_columns(&mut self.img, 0, w / 2, RgbFilter::RgbNot);
        apply_columns(&mut self.img, 0, w / 2, RgbFilter::RgbShlOnce);
        let map = CoordMap {
            x_from_x: 1,
            x_from_y: 0,
            x_offset: 0,
            x_div: 1,
            y_from_x: 3,
            y_from_y: 7,
            y_offset: 0,
            y_div: 7,
        };
        self.for_function(map);
        apply_function(&mut self.img, map, RgbFilter::RgbNot);
        let ghost b6 = self.img.pixels@;
        let ghost sel6 = self.selection;
        let mut a: u32 = 0;
        while h - a > 2
            invariant
                self.wf(),
                w == self.img.width,
                h == self.img.height,
                wi == w as int,
                hh == h as int,
                a <= h,
                mess_pairs(self.img.pixels@, wi, hh, a as int) == mess_pairs(b6, wi, hh, 0),
                mess_pairs_selection(hh, a as int, self.selection) == mess_pairs_selection(
                    hh,
                    0,
                    sel6,
                ),
            decreases h - a,
        {
            let ghost prev = self.img.pixels@;
            let other = a + 2;
            self.for_pair(a, other, PairSelection::Lines);
            apply_pair(&mut self.img, a, other, PairSelection::Lines, RgbFilter::SorteColors);
            swap_lines(&mut self.img, a, other);
            proof {
                assert(mess_pairs(prev, wi, hh, a as int) == mess_pairs(
                    self.img.pixels@,
                    wi,
                    hh,
                    a as int + 3,
                ));
            }
            a = a + 3;
        }
        proof {
            assert(mess_pairs(self.img.pixels@, wi, hh, a as int) == self.img.pixels@);
            assert(mess_pairs_selection(hh, a as int, self.selection) == self.selection);
        }
    }

    /// End the chain and hand the buffer back.
    pub fn extract(self) -> (res: PixelBuffer)
        ensures
            res == self.img,
    {
        self.img
    }
}

} // verus!
