use vstd::prelude::*;

verus! {

/// A product of two factors bounded by `m` in magnitude is bounded by
/// `m * m`.
pub proof fn lemma_mul_le(a: int, b: int, m: int)
    by (nonlinear_arith)
    requires
        0 <= m,
        -m <= a <= m,
        -m <= b <= m,
    ensures
        -(m * m) <= a * b <= m * m,
{
}

/// A product of nonnegative factors grows with either factor.
pub proof fn lemma_mul_bounds(a: int, b: int, ma: int, mb: int)
    by (nonlinear_arith)
    requires
        0 <= a <= ma,
        0 <= b <= mb,
    ensures
        0 <= a * b <= ma * mb,
{
}

/// Multiplying both sides of an ordering by a nonnegative factor keeps
/// it.
pub proof fn lemma_mul_mono_left(a: int, b: int, c: int)
    by (nonlinear_arith)
    requires
        a <= b,
        0 <= c,
    ensures
        a * c <= b * c,
{
}

/// In a row-major raster of width `w`, the flat index of the pixel at
/// column `c` of row `r` recovers the coordinate it was built from.
pub proof fn lemma_row_major(w: int, r: int, c: int)
    by (nonlinear_arith)
    requires
        0 < w,
        0 <= r,
        0 <= c < w,
    ensures
        (r * w + c) / w == r,
        (r * w + c) % w == c,
{
}

/// A flat index below `w * h` names a row below `h` and a column below
/// `w`, and is rebuilt from them.
pub proof fn lemma_flat_index(w: int, h: int, i: int)
    by (nonlinear_arith)
    requires
        0 <= w,
        0 <= h,
        0 <= i < w * h,
    ensures
        0 < w,
        0 <= i / w < h,
        0 <= i % w < w,
        (i / w) * w + i % w == i,
{
}

/// Within the raster bounds, distinct coordinates have distinct flat
/// indices, and every flat index of a pixel is below the raster's size.
pub proof fn lemma_index_in_range(w: int, h: int, x: int, y: int)
    by (nonlinear_arith)
    requires
        0 <= x < w,
        0 <= y < h,
    ensures
        0 <= y * w + x < h * w,
        0 <= y * w + x < w * h,
{
}

} // verus!
