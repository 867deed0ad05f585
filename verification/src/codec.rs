use crate::arith::lemma_flat_index;
use crate::arith::lemma_index_in_range;
use crate::arith::lemma_mul_bounds;
use crate::arith::lemma_mul_mono_left;
use crate::arith::lemma_row_major;
use crate::buffer::at;
use crate::error::Error;
use crate::my_image::MyRgbImage;
use crate::pixel::Rgb;
use crate::selection::columns_range_model;
use crate::selection::lines_range_model;
use crate::selection::run_len;
use crate::selection::write_columns_model;
use crate::selection::write_lines_model;
use vstd::prelude::*;

verus! {

impl MyRgbImage {
    /// Flatten the contiguous rows `[lines_start, lines_end)` into one
    /// row-major pixel sequence; an empty range yields an empty
    /// sequence.
    ///
    /// Fails with [`Error::IndexOutOfBounds`] exactly when the non-empty
    /// range reaches past the last row.
    pub fn get_lines_range(&self, lines_start: u32, lines_end: u32) -> (res: Result<
        Vec<Rgb>,
        Error,
    >)
        requires
            self.wf(),
        ensures
            match res {
                Ok(v) => (lines_start < lines_end ==> lines_end <= self.img.height) && v@
                    == lines_range_model(
                    self.img.pixels@,
                    self.img.width as int,
                    lines_start as int,
                    lines_end as int,
                ),
                Err(e) => e is IndexOutOfBounds && lines_start < lines_end && lines_end
                    > self.img.height,
            },
    {
        let w = self.img.width;
        let h = self.img.height;
        let ghost wi = w as int;
        let ghost hh = h as int;
        let ghost ls = lines_start as int;
        let ghost le = lines_end as int;
        let ghost b = self.img.pixels@;
        if lines_start < lines_end && lines_end > h {
            return Err(Error::IndexOutOfBounds);
        }
        let mut v: Vec<Rgb> = Vec::new();
        if lines_start >= lines_end {
            proof {
                assert(v@ =~= lines_range_model(b, wi, ls, le));
            }
            return Ok(v);
        }
        let mut row = lines_start;
        while row < lines_end
            invariant
                self.wf(),
                w == self.img.width,
                h == self.img.height,
                wi == w as int,
                hh == h as int,
                ls == lines_start as int,
                le == lines_end as int,
                b == self.img.pixels@,
                lines_start <= row <= lines_end,
                lines_end <= h,
                v@.len() == (row - lines_start) * wi,
                forall|k: int| 0 <= k < v@.len() ==> v@[k] == b[ls * wi + k],
            decreases lines_end - row,
        {
            let mut x: u32 = 0;
            while x < w
                invariant
                    self.wf(),
                    w == self.img.width,
                    h == self.img.height,
                    wi == w as int,
                    hh == h as int,
                    ls == lines_start as int,
                    le == lines_end as int,
                    b == self.img.pixels@,
                    lines_start <= row < lines_end,
                    lines_end <= h,
                    x <= w,
                    v@.len() == (row - lines_start) * wi + x,
                    forall|k: int| 0 <= k < v@.len() ==> v@[k] == b[ls * wi + k],
                decreases w - x,
            {
                let p = self.img.get_pixel(x, row);
                v.push(p);
                proof {
                    assert((row - lines_start) * wi + ls * wi == row as int * wi)
                        by (nonlinear_arith)
                        requires
                            ls == lines_start as int,
                            wi >= 0,
                    ;
                }
                x = x + 1;
            }
            proof {
                assert((row - lines_start) * wi + wi == (row + 1 - lines_start) * wi)
                    by (nonlinear_arith);
            }
            row = row + 1;
        }
        proof {
            lemma_mul_mono_left(ls, le, wi);
            lemma_mul_mono_left(le, hh, wi);
            assert(hh * wi == wi * hh) by (nonlinear_arith);
            assert((le - ls) * wi == le * wi - ls * wi) by (nonlinear_arith);
            assert(v@ =~= lines_range_model(b, wi, ls, le));
        }
        Ok(v)
    }

    /// Write the flat row-major sequence `data` back over the contiguous
    /// rows `[lines_start, lines_end)`, one equal chunk per row, in the
    /// order they were read.
    ///
    /// Fails with [`Error::IndexOutOfBounds`] when the non-empty range
    /// reaches past the last row, and otherwise with
    /// [`Error::ShapeMismatch`] when `data`'s length does not equal the
    /// run's size; either way the buffer is untouched.
    pub fn set_lines_range(&mut self, lines_start: u32, lines_end: u32, data: &Vec<Rgb>) -> (res:
        Result<(), Error>)
        requires
            old(self).wf(),
        ensures
            final(self).wf(),
            final(self).selection == old(self).selection,
            final(self).img.width == old(self).img.width,
            final(self).img.height == old(self).img.height,
            match res {
                Ok(()) => (lines_start < lines_end ==> lines_end <= old(self).img.height) && data@
                    .len() == run_len(
                    old(self).img.width as int,
                    lines_start as int,
                    lines_end as int,
                ) && final(self).img.pixels@ == write_lines_model(
                    old(self).img.pixels@,
                    old(self).img.width as int,
                    lines_start as int,
                    lines_end as int,
                    data@,
                ),
                Err(e) => *final(self) == *old(self) && ((e is IndexOutOfBounds && lines_start
                    < lines_end && lines_end > old(self).img.height) || (e is ShapeMismatch && (
                lines_start < lines_end ==> lines_end <= old(self).img.height) && data@.len()
                    != run_len(
                    old(self).img.width as int,
                    lines_start as int,
                    lines_end as int,
                ))),
            },
    {
        let w = self.img.width;
        let h = self.img.height;
        let ghost wi = w as int;
        let ghost hh = h as int;
        let ghost ls = lines_start as int;
        let ghost le = lines_end as int;
        let ghost orig = self.img.pixels@;
        if lines_start < lines_end && lines_end > h {
            return Err(Error::IndexOutOfBounds);
        }
        let _n = self.img.pixels.len();
        let expected: usize = if lines_start >= lines_end {
            0
        } else {
            proof {
                lemma_mul_bounds(le - ls, wi, hh, wi);
                assert(hh * wi == wi * hh) by (nonlinear_arith);
            }
            (lines_end - lines_start) as usize * (w as usize)
        };
        proof {
            assert(ls == le ==> (le - ls) * wi == 0) by (nonlinear_arith);
            assert(expected as int == run_len(wi, ls, le));
        }
        if data.len() != expected {
            return Err(Error::ShapeMismatch);
        }
        if lines_start >= lines_end {
            proof {
                lemma_mul_mono_left(le, ls, wi);
                assert(self.img.pixels@ =~= write_lines_model(orig, wi, ls, le, data@));
            }
            return Ok(());
        }
        let mut row = lines_start;
        while row < lines_end
            invariant
                self.wf(),
                w == self.img.width,
                h == self.img.height,
                wi == w as int,
                hh == h as int,
                ls == lines_start as int,
                le == lines_end as int,
                self.selection == old(self).selection,
                lines_start <= row <= lines_end,
                lines_end <= h,
                data@.len() == (le - ls) * wi,
                data@.len() <= usize::MAX,
                self.img.pixels@.len() == orig.len(),
                orig.len() == wi * hh,
                forall|j: int|
                    0 <= j < orig.len() ==> self.img.pixels@[j] == (if ls * wi <= j < ls * wi + (
                    row - lines_start) * wi {
                        data@[j - ls * wi]
                    } else {
                        orig[j]
                    }),
            decreases lines_end - row,
        {
            let mut x: u32 = 0;
            while x < w
                invariant
                    self.wf(),
                    w == self.img.width,
                    h == self.img.height,
                    wi == w as int,
                    hh == h as int,
                    ls == lines_start as int,
                    le == lines_end as int,
                    self.selection == old(self).selection,
                    lines_start <= row < lines_end,
                    lines_end <= h,
                    x <= w,
                    data@.len() == (le - ls) * wi,
                    data@.len() <= usize::MAX,
                    self.img.pixels@.len() == orig.len(),
                    orig.len() == wi * hh,
                    forall|j: int|
                        0 <= j < orig.len() ==> self.img.pixels@[j] == (if ls * wi <= j < ls * wi
                            + (row - lines_start) * wi + x {
                            data@[j - ls * wi]
                        } else {
                            orig[j]
                        }),
                decreases w - x,
            {
                proof {
                    lemma_mul_bounds(row - lines_start, wi, le - ls - 1, wi);
                    assert((le - ls - 1) * wi + wi == (le - ls) * wi) by (nonlinear_arith);
                    assert((row - lines_start) * wi + ls * wi == row as int * wi)
                        by (nonlinear_arith)
                        requires
                            ls == lines_start as int,
                            wi >= 0,
                    ;
                    lemma_index_in_range(wi, hh, x as int, row as int);
                }
                let i: usize = ((row - lines_start) as usize) * (w as usize) + (x as usize);
                let p = data[i];
                let ghost prev = self.img.pixels@;
                self.img.put_pixel(x, row, p);
                proof {
                    assert forall|j: int| 0 <= j < orig.len() implies self.img.pixels@[j] == (if ls
                        * wi <= j < ls * wi + (row - lines_start) * wi + x + 1 {
                        data@[j - ls * wi]
                    } else {
                        orig[j]
                    }) by {
                        assert(prev[j] == (if ls * wi <= j < ls * wi + (row - lines_start) * wi
                            + x {
                            data@[j - ls * wi]
                        } else {
                            orig[j]
                        }));
                        if j != row as int * wi + x {
                            assert(self.img.pixels@[j] == prev[j]);
                        }
                    }
                }
                x = x + 1;
            }
            proof {
                assert((row - lines_start) * wi + wi == (row + 1 - lines_start) * wi)
                    by (nonlinear_arith);
            }
            row = row + 1;
        }
        proof {
            assert((le - ls) * wi + ls * wi == le * wi) by (nonlinear_arith);
            assert(self.img.pixels@ =~= write_lines_model(orig, wi, ls, le, data@));
        }
        Ok(())
    }

    /// Flatten the contiguous columns `[columns_start, columns_end)`
    /// into one column-major pixel sequence (each column top to bottom,
    /// columns in order); an empty range yields an empty sequence.
    ///
    /// Fails with [`Error::IndexOutOfBounds`] exactly when the non-empty
    /// range reaches past the last column.
    pub fn get_columns_range(&self, columns_start: u32, columns_end: u32) -> (res: Result<
        Vec<Rgb>,
        Error,
    >)
        requires
            self.wf(),
        ensures
            match res {
                Ok(v) => (columns_start < columns_end ==> columns_end <= self.img.width) && v@
                    == columns_range_model(
                    self.img.pixels@,
                    self.img.width as int,
                    self.img.height as int,
                    columns_start as int,
                    columns_end as int,
                ),
                Err(e) => e is IndexOutOfBounds && columns_start < columns_end && columns_end
                    > self.img.width,
            },
    {
        let w = self.img.width;
        let h = self.img.height;
        let ghost wi = w as int;
        let ghost hh = h as int;
        let ghost cs = columns_start as int;
        let ghost ce = columns_end as int;
        let ghost b = self.img.pixels@;
        if columns_start < columns_end && columns_end > w {
            return Err(Error::IndexOutOfBounds);
        }
        let mut v: Vec<Rgb> = Vec::new();
        if columns_start >= columns_end {
            proof {
                assert(cs == ce ==> (ce - cs) * hh == 0) by (nonlinear_arith);
                assert(v@ =~= columns_range_model(b, wi, hh, cs, ce));
            }
            return Ok(v);
        }
        let mut col = columns_start;
        while col < columns_end
            invariant
                self.wf(),
                w == self.img.width,
                h == self.img.height,
                wi == w as int,
                hh == h as int,
                cs == columns_start as int,
                ce == columns_end as int,
                b == self.img.pixels@,
                columns_start <= col <= columns_end,
                columns_end <= w,
                v@.len() == (col - columns_start) * hh,
                forall|k: int| 0 <= k < v@.len() ==> v@[k] == at(b, wi, cs + k / hh, k % hh),
            decreases columns_end - col,
        {
            let mut y: u32 = 0;
            while y < h
                invariant
                    self.wf(),
                    w == self.img.width,
                    h == self.img.height,
                    wi == w as int,
                    hh == h as int,
                    cs == columns_start as int,
                    ce == columns_end as int,
                    b == self.img.pixels@,
                    columns_start <= col < columns_end,
                    columns_end <= w,
                    y <= h,
                    v@.len() == (col - columns_start) * hh + y,
                    forall|k: int| 0 <= k < v@.len() ==> v@[k] == at(b, wi, cs + k / hh, k % hh),
                decreases h - y,
            {
                let p = self.img.get_pixel(col, y);
                v.push(p);
                proof {
                    lemma_row_major(hh, col as int - cs, y as int);
                    assert((col - columns_start) * hh + y == (col as int - cs) * hh + y as int)
                        by (nonlinear_arith)
                        requires
                            cs == columns_start as int,
                            hh >= 0,
                    ;
                }
                y = y + 1;
            }
            proof {
                assert((col - columns_start) * hh + hh == (col + 1 - columns_start) * hh)
                    by (nonlinear_arith);
            }
            col = col + 1;
        }
        proof {
            assert(v@ =~= columns_range_model(b, wi, hh, cs, ce));
        }
        Ok(v)
    }

    /// Write the flat column-major sequence `data` back over the
    /// contiguous columns `[columns_start, columns_end)`, one equal
    /// chunk per column, in the order they were read.
    ///
    /// Fails with [`Error::IndexOutOfBounds`] when the non-empty range
    /// reaches past the last column, and otherwise with
    /// [`Error::ShapeMismatch`] when `data`'s length does not equal the
    /// run's size; either way the buffer is untouched.
    pub fn set_columns_range(
        &mut self,
        columns_start: u32,
        columns_end: u32,
        data: &Vec<Rgb>,
    ) -> (res: Result<(), Error>)
        requires
            old(self).wf(),
        ensures
            final(self).wf(),
            final(self).selection == old(self).selection,
            final(self).img.width == old(self).img.width,
            final(self).img.height == old(self).img.height,
            match res {
                Ok(()) => (columns_start < columns_end ==> columns_end <= old(self).img.width)
                    && data@.len() == run_len(
                    old(self).img.height as int,
                    columns_start as int,
                    columns_end as int,
                ) && final(self).img.pixels@ == write_columns_model(
                    old(self).img.pixels@,
                    old(self).img.width as int,
                    old(self).img.height as int,
                    columns_start as int,
                    columns_end as int,
                    data@,
                ),
                Err(e) => *final(self) == *old(self) && ((e is IndexOutOfBounds && columns_start
                    < columns_end && columns_end > old(self).img.width) || (e is ShapeMismatch && (
                columns_start < columns_end ==> columns_end <= old(self).img.width) && data@.len()
                    != run_len(
                    old(self).img.height as int,
                    columns_start as int,
                    columns_end as int,
                ))),
            },
    {
        let w = self.img.width;
        let h = self.img.height;
        let ghost wi = w as int;
        let ghost hh = h as int;
        let ghost cs = columns_start as int;
        let ghost ce = columns_end as int;
        let ghost orig = self.img.pixels@;
        if columns_start < columns_end && columns_end > w {
            return Err(Error::IndexOutOfBounds);
        }
        let _n = self.img.pixels.len();
        let expected: usize = if columns_start >= columns_end {
            0
        } else {
            proof {
                lemma_mul_bounds(ce - cs, hh, wi, hh);
                assert(wi * hh == wi * hh);
            }
            (columns_end - columns_start) as usize * (h as usize)
        };
        proof {
            assert(cs == ce ==> (ce - cs) * hh == 0) by (nonlinear_arith);
            assert(expected as int == run_len(hh, cs, ce));
        }
        if data.len() != expected {
            return Err(Error::ShapeMismatch);
        }
        if columns_start >= columns_end {
            proof {
                assert(self.img.pixels@ =~= write_columns_model(orig, wi, hh, cs, ce, data@));
            }
            return Ok(());
        }
        let mut col = columns_start;
        while col < columns_end
            invariant
                self.wf(),
                w == self.img.width,
                h == self.img.height,
                wi == w as int,
                hh == h as int,
                cs == columns_start as int,
                ce == columns_end as int,
                self.selection == old(self).selection,
                columns_start <= col <= columns_end,
                columns_end <= w,
                data@.len() == (ce - cs) * hh,
                data@.len() <= usize::MAX,
                self.img.pixels@.len() == orig.len(),
                orig.len() == wi * hh,
                forall|j: int|
                    0 <= j < orig.len() ==> self.img.pixels@[j] == (if cs <= j % wi < col {
                        data@[(j % wi - cs) * hh + j / wi]
                    } else {
                        orig[j]
                    }),
            decreases columns_end - col,
        {
            let mut y: u32 = 0;
            while y < h
                invariant
                    self.wf(),
                    w == self.img.width,
                    h == self.img.height,
                    wi == w as int,
                    hh == h as int,
                    cs == columns_start as int,
                    ce == columns_end as int,
                    self.selection == old(self).selection,
                    columns_start <= col < columns_end,
                    columns_end <= w,
                    y <= h,
                    data@.len() == (ce - cs) * hh,
                    data@.len() <= usize::MAX,
                    self.img.pixels@.len() == orig.len(),
                    orig.len() == wi * hh,
                    forall|j: int|
                        0 <= j < orig.len() ==> self.img.pixels@[j] == (if cs <= j % wi < col || (j
                            % wi == col && j / wi < y) {
                            data@[(j % wi - cs) * hh + j / wi]
                        } else {
                            orig[j]
                        }),
                decreases h - y,
            {
                proof {
                    lemma_mul_bounds(col as int - cs, hh, ce - cs - 1, hh);
                    assert((ce - cs - 1) * hh + hh == (ce - cs) * hh) by (nonlinear_arith);
                    lemma_index_in_range(wi, hh, col as int, y as int);
                }
                let i: usize = ((col - columns_start) as usize) * (h as usize) + (y as usize);
                let p = data[i];
                let ghost prev = self.img.pixels@;
                self.img.put_pixel(col, y, p);
                proof {
                    lemma_row_major(wi, y as int, col as int);
                    assert forall|j: int| 0 <= j < orig.len() implies self.img.pixels@[j] == (if cs
                        <= j % wi < col || (j % wi == col && j / wi < y + 1) {
                        data@[(j % wi - cs) * hh + j / wi]
                    } else {
                        orig[j]
                    }) by {
                        lemma_flat_index(wi, hh, j);
                        assert(prev[j] == (if cs <= j % wi < col || (j % wi == col && j / wi < y) {
                            data@[(j % wi - cs) * hh + j / wi]
                        } else {
                            orig[j]
                        }));
                        if j != y as int * wi + col {
                            assert(self.img.pixels@[j] == prev[j]);
                        }
                    }
                }
                y = y + 1;
            }
            proof {
                assert forall|j: int| 0 <= j < orig.len() implies self.img.pixels@[j] == (if cs <= j
                    % wi < col + 1 {
                    data@[(j % wi - cs) * hh + j / wi]
                } else {
                    orig[j]
                }) by {
                    lemma_flat_index(wi, hh, j);
                }
            }
            col = col + 1;
        }
        proof {
            assert(self.img.pixels@ =~= write_columns_model(orig, wi, hh, cs, ce, data@));
        }
        Ok(())
    }

    /// Read one full row, left to right.
    ///
    /// Fails with [`Error::IndexOutOfBounds`] exactly when `line` is at
    /// or beyond the buffer's height.
    pub fn get_line(&self, line: u32) -> (res: Result<Vec<Rgb>, Error>)
        requires
            self.wf(),
        ensures
            match res {
                Ok(v) => line < self.img.height && v@.len() == self.img.width && forall|x: int|
                    0 <= x < self.img.width ==> v@[x] == self.img.pix(x, line as int),
                Err(e) => e is IndexOutOfBounds && line >= self.img.height,
            },
    {
        let h = self.img.height;
        if line >= h {
            return Err(Error::IndexOutOfBounds);
        }
        let ghost wi = self.img.width as int;
        let ghost hh = h as int;
        let ghost li = line as int;
        match self.get_lines_range(line, line + 1) {
            Ok(v) => {
                proof {
                    lemma_mul_mono_left(li + 1, hh, wi);
                    assert(hh * wi == wi * hh) by (nonlinear_arith);
                    assert((li + 1) * wi - li * wi == wi) by (nonlinear_arith);
                    assert forall|x: int| 0 <= x < wi implies v@[x] == self.img.pix(x, li) by {
                        assert(v@[x] == self.img.pixels@[li * wi + x]);
                    }
                }
                Ok(v)
            },
            Err(e) => Err(e),
        }
    }

    /// Read one full column, top to bottom.
    ///
    /// Fails with [`Error::IndexOutOfBounds`] exactly when `column` is
    /// at or beyond the buffer's width.
    pub fn get_column(&self, column: u32) -> (res: Result<Vec<Rgb>, Error>)
        requires
            self.wf(),
        ensures
            match res {
                Ok(v) => column < self.img.width && v@.len() == self.img.height && forall|y: int|
                    0 <= y < self.img.height ==> v@[y] == self.img.pix(column as int, y),
                Err(e) => e is IndexOutOfBounds && column >= self.img.width,
            },
    {
        let w = self.img.width;
        if column >= w {
            return Err(Error::IndexOutOfBounds);
        }
        let ghost wi = w as int;
        let ghost hh = self.img.height as int;
        let ghost ci = column as int;
        match self.get_columns_range(column, column + 1) {
            Ok(v) => {
                proof {
                    assert((ci + 1 - ci) * hh == hh) by (nonlinear_arith);
                    assert forall|y: int| 0 <= y < hh implies v@[y] == self.img.pix(ci, y) by {
                        lemma_row_major(hh, 0, y);
                        assert(0 * hh == 0) by (nonlinear_arith);
                        assert(v@[y] == at(self.img.pixels@, wi, ci + y / hh, y % hh));
                    }
                }
                Ok(v)
            },
            Err(e) => Err(e),
        }
    }

    /// Read the rows `first_line` through `last_line`, both included,
    /// flattened into one row-major pixel sequence.
    ///
    /// Fails with [`Error::IndexOutOfBounds`] exactly when `last_line`
    /// is at or beyond the buffer's height; an interval whose first row
    /// lies past its last yields an empty sequence.
    pub fn get_lines_interval(&self, first_line: u32, last_line: u32) -> (res: Result<
        Vec<Rgb>,
        Error,
    >)
        requires
            self.wf(),
        ensures
            match res {
                Ok(v) => last_line < self.img.height && v@ == lines_range_model(
                    self.img.pixels@,
                    self.img.width as int,
                    first_line as int,
                    last_line as int + 1,
                ),
                Err(e) => e is IndexOutOfBounds && last_line >= self.img.height,
            },
    {
        if last_line >= self.img.height {
            return Err(Error::IndexOutOfBounds);
        }
        self.get_lines_range(first_line, last_line + 1)
    }

    /// Read the columns `first_column` through `last_column`, both
    /// included, flattened into one column-major pixel sequence.
    ///
    /// Fails with [`Error::IndexOutOfBounds`] exactly when
    /// `last_column` is at or beyond the buffer's width; an interval
    /// whose first column lies past its last yields an empty sequence.
    pub fn get_columns_interval(&self, first_column: u32, last_column: u32) -> (res: Result<
        Vec<Rgb>,
        Error,
    >)
        requires
            self.wf(),
        ensures
            match res {
                Ok(v) => last_column < self.img.width && v@ == columns_range_model(
                    self.img.pixels@,
                    self.img.width as int,
                    self.img.height as int,
                    first_column as int,
                    last_column as int + 1,
                ),
                Err(e) => e is IndexOutOfBounds && last_column >= self.img.width,
            },
    {
        if last_column >= self.img.width {
            return Err(Error::IndexOutOfBounds);
        }
        self.get_columns_range(first_column, last_column + 1)
    }
}

} // verus!
