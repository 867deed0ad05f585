use vstd::prelude::*;

verus! {

/// One pixel: three independent 8-bit color channels, no alpha.
#[derive(Clone, Copy, Debug, PartialEq, Eq, Structural)]
pub struct Rgb {
    pub r: u8,
    pub g: u8,
    pub b: u8,
}

impl Rgb {
    pub fn new(r: u8, g: u8, b: u8) -> (p: Rgb)
        ensures
            p == (Rgb { r, g, b }),
    {
        Rgb { r, g, b }
    }

    /// The all-zero (black) pixel.
    pub fn black() -> (p: Rgb)
        ensures
            p == (Rgb { r: 0, g: 0, b: 0 }),
    {
        Rgb { r: 0, g: 0, b: 0 }
    }
}

/// The smaller of two channel values.
pub open spec fn chan_min(a: u8, b: u8) -> u8 {
    if a <= b {
        a
    } else {
        b
    }
}

/// The larger of two channel values.
pub open spec fn chan_max(a: u8, b: u8) -> u8 {
    if a <= b {
        b
    } else {
        a
    }
}

/// A channel shifted left by `n` bits; shifting by 8 or more clears every
/// bit, so the result is defined to be zero there.
pub open spec fn chan_shl(v: u8, n: u8) -> u8 {
    if n >= 8 {
        0
    } else {
        v << n
    }
}

/// A channel shifted right by `n` bits; zero when `n` is 8 or more.
pub open spec fn chan_shr(v: u8, n: u8) -> u8 {
    if n >= 8 {
        0
    } else {
        v >> n
    }
}

/// The three channels of `p` reordered into ascending numeric order.
pub open spec fn sort_ascending(p: Rgb) -> Rgb {
    Rgb {
        r: chan_min(chan_min(p.r, p.g), p.b),
        g: chan_max(chan_min(p.r, p.g), chan_min(chan_max(p.r, p.g), p.b)),
        b: chan_max(chan_max(p.r, p.g), p.b),
    }
}

/// The three channels of `p` reordered into descending numeric order.
pub open spec fn sort_descending(p: Rgb) -> Rgb {
    Rgb {
        r: chan_max(chan_max(p.r, p.g), p.b),
        g: chan_max(chan_min(p.r, p.g), chan_min(chan_max(p.r, p.g), p.b)),
        b: chan_min(chan_min(p.r, p.g), p.b),
    }
}

/// A stateless transform of one pixel. Each variant is a pure function
/// from the three channel values to three new channel values; applying a
/// filter at one coordinate never depends on any other pixel.
#[derive(Clone, Copy, Debug)]
pub enum RgbFilter {
    /// Force the red channel to its maximum, leave the others.
    Red,
    /// Force the green channel to its maximum, leave the others.
    Green,
    /// Force the blue channel to its maximum, leave the others.
    Blue,
    /// Force red and blue to their maxima, leave green.
    Magenta,
    /// Force red and green to their maxima, leave blue.
    Yellow,
    /// Force green and blue to their maxima, leave red.
    Cyan,
    /// Reorder the channels into ascending numeric order.
    SorteColors,
    /// Reorder the channels into descending numeric order.
    SortedColorsRev,
    /// Cyclic channel permutation: `(r, g, b)` becomes `(b, r, g)`.
    SwapRgbColorsI,
    /// Exchange the red and green channels.
    SwapRgbColorsII,
    /// Exchange the green and blue channels.
    SwapRgbColorsIII,
    /// Invert every bit of every channel.
    RgbNot,
    /// Shift every channel left by one bit.
    RgbShlOnce,
    /// Shift every channel right by one bit.
    RgbShrOnce,
    /// Shift every channel left by the given amount; 8 or more yields zero.
    RgbShlNth(u8),
    /// Shift every channel right by the given amount; 8 or more yields zero.
    RgbShrNth(u8),
    /// Bitwise-and each channel with the same channel of the mask.
    RgbAndMask(Rgb),
    /// Bitwise-or each channel with the same channel of the mask.
    RgbOrMask(Rgb),
    /// Bitwise-xor each channel with the same channel of the mask.
    RgbXorMask(Rgb),
    /// Replace the pixel with the given color unconditionally.
    Solid(Rgb),
}

impl RgbFilter {
    /// What applying this filter to `p` yields.
    pub open spec fn apply_spec(self, p: Rgb) -> Rgb {
        match self {
            RgbFilter::Red => Rgb { r: 255, g: p.g, b: p.b },
            RgbFilter::Green => Rgb { r: p.r, g: 255, b: p.b },
            RgbFilter::Blue => Rgb { r: p.r, g: p.g, b: 255 },
            RgbFilter::Magenta => Rgb { r: 255, g: p.g, b: 255 },
            RgbFilter::Yellow => Rgb { r: 255, g: 255, b: p.b },
            RgbFilter::Cyan => Rgb { r: p.r, g: 255, b: 255 },
            RgbFilter::SorteColors => sort_ascending(p),
            RgbFilter::SortedColorsRev => sort_descending(p),
            RgbFilter::SwapRgbColorsI => Rgb { r: p.b, g: p.r, b: p.g },
            RgbFilter::SwapRgbColorsII => Rgb { r: p.g, g: p.r, b: p.b },
            RgbFilter::SwapRgbColorsIII => Rgb { r: p.r, g: p.b, b: p.g },
            RgbFilter::RgbNot => Rgb { r: !p.r, g: !p.g, b: !p.b },
            RgbFilter::RgbShlOnce => Rgb {
                r: chan_shl(p.r, 1),
                g: chan_shl(p.g, 1),
                b: chan_shl(p.b, 1),
            },
            RgbFilter::RgbShrOnce => Rgb {
                r: chan_shr(p.r, 1),
                g: chan_shr(p.g, 1),
                b: chan_shr(p.b, 1),
            },
            RgbFilter::RgbShlNth(n) => Rgb {
                r: chan_shl(p.r, n),
                g: chan_shl(p.g, n),
                b: chan_shl(p.b, n),
            },
            RgbFilter::RgbShrNth(n) => Rgb {
                r: chan_shr(p.r, n),
                g: chan_shr(p.g, n),
                b: chan_shr(p.b, n),
            },
            RgbFilter::RgbAndMask(m) => Rgb { r: p.r & m.r, g: p.g & m.g, b: p.b & m.b },
            RgbFilter::RgbOrMask(m) => Rgb { r: p.r | m.r, g: p.g | m.g, b: p.b | m.b },
            RgbFilter::RgbXorMask(m) => Rgb { r: p.r ^ m.r, g: p.g ^ m.g, b: p.b ^ m.b },
            RgbFilter::Solid(c) => c,
        }
    }

    /// Apply this filter to one pixel.
    pub fn apply_filter(self, pixel: Rgb) -> (res: Rgb)
        ensures
            res == self.apply_spec(pixel),
    {
        match self {
            RgbFilter::Red => RgbFilter::red(pixel),
            RgbFilter::Green => RgbFilter::green(pixel),
            RgbFilter::Blue => RgbFilter::blue(pixel),
            RgbFilter::Magenta => RgbFilter::magenta(pixel),
            RgbFilter::Yellow => RgbFilter::yellow(pixel),
            RgbFilter::Cyan => RgbFilter::cyan(pixel),
            RgbFilter::SorteColors => RgbFilter::sorted_colors(pixel),
            RgbFilter::SortedColorsRev => RgbFilter::sorted_colors_rev(pixel),
            RgbFilter::SwapRgbColorsI => RgbFilter::swap_rgb_colors_i(pixel),
            RgbFilter::SwapRgbColorsII => RgbFilter::swap_rgb_colors_ii(pixel),
            RgbFilter::SwapRgbColorsIII => RgbFilter::swap_rgb_colors_iii(pixel),
            RgbFilter::RgbNot => RgbFilter::rgb_not(pixel),
            RgbFilter::RgbShlOnce => RgbFilter::rgb_shl_nth(pixel, 1),
            RgbFilter::RgbShrOnce => RgbFilter::rgb_shr_nth(pixel, 1),
            RgbFilter::RgbShlNth(times) => RgbFilter::rgb_shl_nth(pixel, times),
            RgbFilter::RgbShrNth(times) => RgbFilter::rgb_shr_nth(pixel, times),
            RgbFilter::RgbAndMask(mask) => RgbFilter::rgb_and_mask(pixel, mask),
            RgbFilter::RgbOrMask(mask) => RgbFilter::rgb_or_mask(pixel, mask),
            RgbFilter::RgbXorMask(mask) => RgbFilter::rgb_xor_mask(pixel, mask),
            RgbFilter::Solid(c) => RgbFilter::solid(c),
        }
    }

    fn red(rgb: Rgb) -> (res: Rgb)
        ensures
            res == (Rgb { r: 255, g: rgb.g, b: rgb.b }),
    {
        Rgb { r: 255, g: rgb.g, b: rgb.b }
    }

    fn green(rgb: Rgb) -> (res: Rgb)
        ensures
            res == (Rgb { r: rgb.r, g: 255, b: rgb.b }),
    {
        Rgb { r: rgb.r, g: 255, b: rgb.b }
    }

    fn blue(rgb: Rgb) -> (res: Rgb)
        ensures
            res == (Rgb { r: rgb.r, g: rgb.g, b: 255 }),
    {
        Rgb { r: rgb.r, g: rgb.g, b: 255 }
    }

    fn magenta(rgb: Rgb) -> (res: Rgb)
        ensures
            res == (Rgb { r: 255, g: rgb.g, b: 255 }),
    {
        Rgb { r: 255, g: rgb.g, b: 255 }
    }

    fn yellow(rgb: Rgb) -> (res: Rgb)
        ensures
            res == (Rgb { r: 255, g: 255, b: rgb.b }),
    {
        Rgb { r: 255, g: 255, b: rgb.b }
    }

    fn cyan(rgb: Rgb) -> (res: Rgb)
        ensures
            res == (Rgb { r: rgb.r, g: 255, b: 255 }),
    {
        Rgb { r: rgb.r, g: 255, b: 255 }
    }

    fn sorted_colors(rgb: Rgb) -> (res: Rgb)
        ensures
            res == sort_ascending(rgb),
    {
        let mut a = rgb.r;
        let mut b = rgb.g;
        let mut c = rgb.b;
        if a > b {
            let t = a;
            a = b;
            b = t;
        }
        if b > c {
            let t = b;
            b = c;
            c = t;
        }
        if a > b {
            let t = a;
            a = b;
            b = t;
        }
        Rgb { r: a, g: b, b: c }
    }

    fn sorted_colors_rev(rgb: Rgb) -> (res: Rgb)
        ensures
            res == sort_descending(rgb),
    {
        let sorted = RgbFilter::sorted_colors(rgb);
        Rgb { r: sorted.b, g: sorted.g, b: sorted.r }
    }

    fn swap_rgb_colors_i(rgb: Rgb) -> (res: Rgb)
        ensures
            res == (Rgb { r: rgb.b, g: rgb.r, b: rgb.g }),
    {
        Rgb { r: rgb.b, g: rgb.r, b: rgb.g }
    }

    fn swap_rgb_colors_ii(rgb: Rgb) -> (res: Rgb)
        ensures
            res == (Rgb { r: rgb.g, g: rgb.r, b: rgb.b }),
    {
        Rgb { r: rgb.g, g: rgb.r, b: rgb.b }
    }

    fn swap_rgb_colors_iii(rgb: Rgb) -> (res: Rgb)
        ensures
            res == (Rgb { r: rgb.r, g: rgb.b, b: rgb.g }),
    {
        Rgb { r: rgb.r, g: rgb.b, b: rgb.g }
    }

    fn rgb_not(rgb: Rgb) -> (res: Rgb)
        ensures
            res == (Rgb { r: !rgb.r, g: !rgb.g, b: !rgb.b }),
    {
        Rgb { r: !rgb.r, g: !rgb.g, b: !rgb.b }
    }

    fn rgb_shl_nth(rgb: Rgb, times: u8) -> (res: Rgb)
        ensures
            res == (Rgb {
                r: chan_shl(rgb.r, times),
                g: chan_shl(rgb.g, times),
                b: chan_shl(rgb.b, times),
            }),
    {
        if times >= 8 {
            Rgb { r: 0, g: 0, b: 0 }
        } else {
            Rgb { r: rgb.r << times, g: rgb.g << times, b: rgb.b << times }
        }
    }

    fn rgb_shr_nth(rgb: Rgb, times: u8) -> (res: Rgb)
        ensures
            res == (Rgb {
                r: chan_shr(rgb.r, times),
                g: chan_shr(rgb.g, times),
                b: chan_shr(rgb.b, times),
            }),
    {
        if times >= 8 {
            Rgb { r: 0, g: 0, b: 0 }
        } else {
            Rgb { r: rgb.r >> times, g: rgb.g >> times, b: rgb.b >> times }
        }
    }

    fn rgb_and_mask(rgb: Rgb, mask: Rgb) -> (res: Rgb)
        ensures
            res == (Rgb { r: rgb.r & mask.r, g: rgb.g & mask.g, b: rgb.b & mask.b }),
    {
        Rgb { r: rgb.r & mask.r, g: rgb.g & mask.g, b: rgb.b & mask.b }
    }

    fn rgb_or_mask(rgb: Rgb, mask: Rgb) -> (res: Rgb)
        ensures
            res == (Rgb { r: rgb.r | mask.r, g: rgb.g | mask.g, b: rgb.b | mask.b }),
    {
        Rgb { r: rgb.r | mask.r, g: rgb.g | mask.g, b: rgb.b | mask.b }
    }

    fn rgb_xor_mask(rgb: Rgb, mask: Rgb) -> (res: Rgb)
        ensures
            res == (Rgb { r: rgb.r ^ mask.r, g: rgb.g ^ mask.g, b: rgb.b ^ mask.b }),
    {
        Rgb { r: rgb.r ^ mask.r, g: rgb.g ^ mask.g, b: rgb.b ^ mask.b }
    }

    fn solid(c: Rgb) -> (res: Rgb)
        ensures
            res == c,
    {
        c
    }
}

/// Inverting every bit of every channel twice restores the pixel.
pub proof fn lemma_rgb_not_involutive(p: Rgb)
    ensures
        RgbFilter::RgbNot.apply_spec(RgbFilter::RgbNot.apply_spec(p)) == p,
{
    let r = p.r;
    let g = p.g;
    let b = p.b;
    assert(!(!r) == r) by (bit_vector);
    assert(!(!g) == g) by (bit_vector);
    assert(!(!b) == b) by (bit_vector);
}

} // verus!
