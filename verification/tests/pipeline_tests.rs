use filty::CoordMap;
use filty::Error;
use filty::MyRgbImage;
use filty::PairSelection;
use filty::PixelBuffer;
use filty::Point;
use filty::Rgb;
use filty::RgbFilter;
use filty::Triangle;

fn create_sample(width: u32, height: u32) -> MyRgbImage {
    let mut sample = PixelBuffer::from_pixel(width, height, Rgb::new(0, 0, 0));
    for y in 0..height {
        for x in 0..width {
            let v = (x + y * width) as u8;
            sample.put_pixel(x, y, Rgb::new(v, v, v));
        }
    }
    MyRgbImage::new(sample)
}

fn grey(v: u8) -> Rgb {
    Rgb::new(v, v, v)
}

/// Run one filter over a single-pixel buffer and return the result.
fn filtered(f: RgbFilter, p: Rgb) -> Rgb {
    let mut img = MyRgbImage::new(PixelBuffer::from_pixel(1, 1, p));
    img.blend(f).unwrap();
    img.img.get_pixel(0, 0)
}

#[test]
fn test_channel_filters_exact_values() {
    let p = Rgb::new(10, 20, 30);
    assert_eq!(filtered(RgbFilter::Red, p), Rgb::new(255, 20, 30));
    assert_eq!(filtered(RgbFilter::Green, p), Rgb::new(10, 255, 30));
    assert_eq!(filtered(RgbFilter::Blue, p), Rgb::new(10, 20, 255));
    assert_eq!(filtered(RgbFilter::Magenta, p), Rgb::new(255, 20, 255));
    assert_eq!(filtered(RgbFilter::Yellow, p), Rgb::new(255, 255, 30));
    assert_eq!(filtered(RgbFilter::Cyan, p), Rgb::new(10, 255, 255));
    assert_eq!(filtered(RgbFilter::Solid(Rgb::new(9, 8, 7)), p), Rgb::new(9, 8, 7));
}

#[test]
fn test_sort_filters_exact_values() {
    let p = Rgb::new(30, 10, 20);
    assert_eq!(filtered(RgbFilter::SorteColors, p), Rgb::new(10, 20, 30));
    assert_eq!(filtered(RgbFilter::SortedColorsRev, p), Rgb::new(30, 20, 10));
    let q = Rgb::new(5, 5, 1);
    assert_eq!(filtered(RgbFilter::SorteColors, q), Rgb::new(1, 5, 5));
    assert_eq!(filtered(RgbFilter::SortedColorsRev, q), Rgb::new(5, 5, 1));
}

#[test]
fn test_permutation_filters_exact_values() {
    let p = Rgb::new(1, 2, 3);
    assert_eq!(filtered(RgbFilter::SwapRgbColorsI, p), Rgb::new(3, 1, 2));
    assert_eq!(filtered(RgbFilter::SwapRgbColorsII, p), Rgb::new(2, 1, 3));
    assert_eq!(filtered(RgbFilter::SwapRgbColorsIII, p), Rgb::new(1, 3, 2));
}

#[test]
fn test_bitwise_filters_exact_values() {
    assert_eq!(
        filtered(RgbFilter::RgbNot, Rgb::new(0, 255, 170)),
        Rgb::new(255, 0, 85)
    );
    assert_eq!(
        filtered(RgbFilter::RgbAndMask(Rgb::new(15, 240, 255)), Rgb::new(255, 255, 0)),
        Rgb::new(15, 240, 0)
    );
    assert_eq!(
        filtered(RgbFilter::RgbOrMask(Rgb::new(1, 2, 4)), Rgb::new(2, 2, 3)),
        Rgb::new(3, 2, 7)
    );
    assert_eq!(
        filtered(RgbFilter::RgbXorMask(Rgb::new(255, 0, 15)), Rgb::new(240, 240, 240)),
        Rgb::new(15, 240, 255)
    );
}

#[test]
fn test_shift_filters_exact_values() {
    assert_eq!(
        filtered(RgbFilter::RgbShlOnce, Rgb::new(1, 128, 255)),
        Rgb::new(2, 0, 254)
    );
    assert_eq!(
        filtered(RgbFilter::RgbShrOnce, Rgb::new(255, 2, 1)),
        Rgb::new(127, 1, 0)
    );
    assert_eq!(
        filtered(RgbFilter::RgbShlNth(3), Rgb::new(1, 255, 16)),
        Rgb::new(8, 248, 128)
    );
    assert_eq!(
        filtered(RgbFilter::RgbShrNth(4), Rgb::new(255, 16, 1)),
        Rgb::new(15, 1, 0)
    );
}

#[test]
fn test_shift_by_eight_or_more_yields_zero() {
    // The documented policy for shift counts past the channel width:
    // every bit is shifted out, the channel becomes zero.
    let p = Rgb::new(255, 170, 1);
    assert_eq!(filtered(RgbFilter::RgbShlNth(8), p), Rgb::new(0, 0, 0));
    assert_eq!(filtered(RgbFilter::RgbShrNth(8), p), Rgb::new(0, 0, 0));
    assert_eq!(filtered(RgbFilter::RgbShlNth(200), p), Rgb::new(0, 0, 0));
    assert_eq!(filtered(RgbFilter::RgbShrNth(200), p), Rgb::new(0, 0, 0));
}

#[test]
fn test_xor_mask_under_all_scenario() {
    // A zero buffer under Xor(0, 125, 125) becomes (0, 125, 125)
    // everywhere.
    let mut img = MyRgbImage::new(PixelBuffer::from_pixel(4, 3, Rgb::new(0, 0, 0)));
    img.blend(RgbFilter::RgbXorMask(Rgb::new(0, 125, 125))).unwrap();
    for y in 0..3 {
        for x in 0..4 {
            assert_eq!(img.img.get_pixel(x, y), Rgb::new(0, 125, 125));
        }
    }
}

#[test]
fn test_swap_pair_rows_scenario() {
    // A 3x3 buffer with pixel (x, y) holding x + 3y on every channel:
    // row 1 reads [3, 4, 5]; swapping rows 0 and 1 leaves row 0 holding
    // [3, 4, 5] and row 1 holding [0, 1, 2].
    let mut img = create_sample(3, 3);
    assert_eq!(img.get_line(1).unwrap(), vec![grey(3), grey(4), grey(5)]);
    img.for_pair(0, 1, PairSelection::Lines);
    img.swap_pair().unwrap();
    assert_eq!(img.get_line(0).unwrap(), vec![grey(3), grey(4), grey(5)]);
    assert_eq!(img.get_line(1).unwrap(), vec![grey(0), grey(1), grey(2)]);
    assert_eq!(img.get_line(2).unwrap(), vec![grey(6), grey(7), grey(8)]);
}

#[test]
fn test_double_invert_restores_row() {
    let mut img = create_sample(4, 4);
    let before = img.img.pixels.clone();
    img.for_line(2);
    img.blend(RgbFilter::RgbNot).unwrap();
    assert_ne!(img.img.pixels, before);
    img.blend(RgbFilter::RgbNot).unwrap();
    assert_eq!(img.img.pixels, before);
}

#[test]
fn test_swap_twice_restores() {
    let mut img = create_sample(4, 5);
    let before = img.img.pixels.clone();
    img.for_pair(1, 3, PairSelection::Lines);
    img.swap_pair().unwrap();
    assert_ne!(img.img.pixels, before);
    img.swap_pair().unwrap();
    assert_eq!(img.img.pixels, before);

    img.for_pair(0, 2, PairSelection::Columns);
    img.swap_pair().unwrap();
    assert_ne!(img.img.pixels, before);
    img.swap_pair().unwrap();
    assert_eq!(img.img.pixels, before);
}

#[test]
fn test_blend_row_out_of_bounds() {
    let mut img = create_sample(3, 2);
    let before = img.img.pixels.clone();
    img.for_line(2);
    assert!(matches!(img.blend(RgbFilter::RgbNot), Err(Error::IndexOutOfBounds)));
    assert_eq!(img.img.pixels, before);
}

#[test]
fn test_blend_column_out_of_bounds() {
    let mut img = create_sample(2, 3);
    img.for_column(2);
    assert!(matches!(img.blend(RgbFilter::RgbNot), Err(Error::IndexOutOfBounds)));
}

#[test]
fn test_blend_pair_out_of_bounds() {
    let mut img = create_sample(3, 3);
    img.for_pair(0, 3, PairSelection::Lines);
    assert!(matches!(img.blend(RgbFilter::RgbNot), Err(Error::IndexOutOfBounds)));
    img.for_pair(3, 0, PairSelection::Lines);
    assert!(matches!(img.blend(RgbFilter::RgbNot), Err(Error::IndexOutOfBounds)));
    img.for_pair(0, 3, PairSelection::Columns);
    assert!(matches!(img.blend(RgbFilter::RgbNot), Err(Error::IndexOutOfBounds)));
    img.for_pair(0, 1, PairSelection::Lines);
    img.blend(RgbFilter::RgbNot).unwrap();
}

#[test]
fn test_swap_pair_out_of_bounds() {
    let mut img = create_sample(3, 3);
    let before = img.img.pixels.clone();
    img.for_pair(1, 3, PairSelection::Lines);
    assert!(matches!(img.swap_pair(), Err(Error::IndexOutOfBounds)));
    assert_eq!(img.img.pixels, before);
}

#[test]
fn test_swap_pair_without_pair_selection_is_noop() {
    let mut img = create_sample(3, 3);
    let before = img.img.pixels.clone();
    img.for_line(1);
    img.swap_pair().unwrap();
    assert_eq!(img.img.pixels, before);
}

#[test]
fn test_swap_pair_same_segment_is_noop() {
    let mut img = create_sample(3, 3);
    let before = img.img.pixels.clone();
    img.for_pair(1, 1, PairSelection::Lines);
    img.swap_pair().unwrap();
    assert_eq!(img.img.pixels, before);
}

#[test]
fn test_blend_empty_range_is_not_an_error() {
    let mut img = create_sample(3, 3);
    let before = img.img.pixels.clone();
    img.for_lines(2, 2);
    img.blend(RgbFilter::RgbNot).unwrap();
    assert_eq!(img.img.pixels, before);
    img.for_columns(7, 4);
    img.blend(RgbFilter::RgbNot).unwrap();
    assert_eq!(img.img.pixels, before);
}

#[test]
fn test_draw_triangle_corner_halves_fill() {
    // The buffer's four corners split into two triangles along the
    // diagonal; filling both with one solid color covers every pixel.
    let mut img = create_sample(4, 3);
    let color = Rgb::new(1, 2, 3);
    img.draw_triangle(
        Point::new(0, 0),
        Point::new(3, 0),
        Point::new(0, 2),
        RgbFilter::Solid(color),
    );
    img.draw_triangle(
        Point::new(3, 0),
        Point::new(0, 2),
        Point::new(3, 2),
        RgbFilter::Solid(color),
    );
    for y in 0..3 {
        for x in 0..4 {
            assert_eq!(img.img.get_pixel(x, y), color);
        }
    }
}

#[test]
fn test_triangle_is_inside() {
    let t = Triangle::new(Point::new(0, 0), Point::new(4, 0), Point::new(0, 4));
    assert!(t.is_inside(1, 1));
    assert!(t.is_inside(0, 0));
    assert!(t.is_inside(2, 2));
    assert!(!t.is_inside(3, 3));
    assert!(!t.is_inside(-1, 0));
    // Reversed winding accepts the same points.
    let r = Triangle::new(Point::new(0, 4), Point::new(4, 0), Point::new(0, 0));
    assert!(r.is_inside(1, 1));
    assert!(!r.is_inside(3, 3));
}

#[test]
fn test_degenerate_triangle_selects_only_its_line() {
    let t = Triangle::new(Point::new(0, 0), Point::new(1, 1), Point::new(2, 2));
    assert!(t.is_inside(1, 1));
    assert!(!t.is_inside(2, 0));
    assert!(!t.is_inside(0, 2));
}

#[test]
fn test_line_side_exact_value() {
    // Twice the signed area of ((2,0), (0,2), (0,0)) is 4.
    let d = Triangle::line_side(Point::new(2, 0), Point::new(0, 2), Point::new(0, 0));
    assert_eq!(d, 4);
    let e = Triangle::line_side(Point::new(0, 2), Point::new(2, 0), Point::new(0, 0));
    assert_eq!(e, -4);
}

#[test]
fn test_coord_map_masks_remapped_pixels() {
    // The map (x, y) -> (x, y + 1) pushes the last row out of bounds,
    // so blending under it touches every row but the last.
    let map = CoordMap {
        x_from_x: 1,
        x_from_y: 0,
        x_offset: 0,
        x_div: 1,
        y_from_x: 0,
        y_from_y: 1,
        y_offset: 1,
        y_div: 1,
    };
    let mut img = MyRgbImage::new(PixelBuffer::from_pixel(2, 3, Rgb::new(0, 0, 0)));
    img.for_function(map);
    img.blend(RgbFilter::Solid(Rgb::new(7, 7, 7))).unwrap();
    for x in 0..2 {
        assert_eq!(img.img.get_pixel(x, 0), grey(7));
        assert_eq!(img.img.get_pixel(x, 1), grey(7));
        assert_eq!(img.img.get_pixel(x, 2), grey(0));
    }
}

#[test]
fn test_coord_map_zero_divisor_selects_nothing() {
    let map = CoordMap {
        x_from_x: 1,
        x_from_y: 0,
        x_offset: 0,
        x_div: 0,
        y_from_x: 0,
        y_from_y: 1,
        y_offset: 0,
        y_div: 1,
    };
    let mut img = create_sample(3, 3);
    let before = img.img.pixels.clone();
    img.for_function(map);
    img.blend(RgbFilter::RgbNot).unwrap();
    assert_eq!(img.img.pixels, before);
}

#[test]
fn test_identity_coord_map_selects_everything() {
    let mut img = MyRgbImage::new(PixelBuffer::from_pixel(2, 2, Rgb::new(1, 1, 1)));
    img.for_function(CoordMap::identity());
    img.blend(RgbFilter::Solid(Rgb::new(5, 5, 5))).unwrap();
    for y in 0..2 {
        for x in 0..2 {
            assert_eq!(img.img.get_pixel(x, y), grey(5));
        }
    }
}

#[test]
fn test_selector_is_replaced_wholesale() {
    let mut img = create_sample(3, 3);
    img.for_line(0);
    img.for_column(2);
    img.blend(RgbFilter::Solid(Rgb::new(1, 1, 1))).unwrap();
    // Only the column selection applies; row 0 outside it is untouched.
    assert_eq!(img.get_line(0).unwrap(), vec![grey(0), grey(1), grey(1)]);
    assert_eq!(img.get_column(2).unwrap(), vec![grey(1), grey(1), grey(1)]);
}

#[test]
fn test_mess_everything_matches_manual_chain() {
    let mut scrambled = create_sample(5, 7);
    scrambled.mess_everything();

    let mut manual = create_sample(5, 7);
    let (w, h) = (5u32, 7u32);
    manual.for_lines(0, h / 4);
    manual.blend(RgbFilter::Magenta).unwrap();
    manual.blend(RgbFilter::RgbXorMask(Rgb::new(0, 20, 50))).unwrap();
    manual.for_columns(0, w / 4);
    manual.blend(RgbFilter::Cyan).unwrap();
    manual.for_columns(0, w / 2);
    manual.blend(RgbFilter::RgbNot).unwrap();
    manual.blend(RgbFilter::RgbShlOnce).unwrap();
    let map = CoordMap {
        x_from_x: 1,
        x_from_y: 0,
        x_offset: 0,
        x_div: 1,
        y_from_x: 3,
        y_from_y: 7,
        y_offset: 0,
        y_div: 7,
    };
    manual.for_function(map);
    manual.blend(RgbFilter::RgbNot).unwrap();
    let mut a = 0u32;
    while a + 2 < h {
        manual.for_pair(a, a + 2, PairSelection::Lines);
        manual.blend(RgbFilter::SorteColors).unwrap();
        manual.swap_pair().unwrap();
        a += 3;
    }

    assert_eq!(scrambled.img.pixels, manual.img.pixels);
    assert_eq!(scrambled.img.width, 5);
    assert_eq!(scrambled.img.height, 7);
}

#[test]
fn test_mess_everything_on_short_buffer_skips_pair_passes() {
    // With fewer than three rows no pair (a, a + 2) fits, so only the
    // blend phases run.
    let mut scrambled = create_sample(4, 2);
    scrambled.mess_everything();

    let mut manual = create_sample(4, 2);
    manual.for_columns(0, 1);
    manual.blend(RgbFilter::Cyan).unwrap();
    manual.for_columns(0, 2);
    manual.blend(RgbFilter::RgbNot).unwrap();
    manual.blend(RgbFilter::RgbShlOnce).unwrap();
    let map = CoordMap {
        x_from_x: 1,
        x_from_y: 0,
        x_offset: 0,
        x_div: 1,
        y_from_x: 3,
        y_from_y: 7,
        y_offset: 0,
        y_div: 7,
    };
    manual.for_function(map);
    manual.blend(RgbFilter::RgbNot).unwrap();
    assert_eq!(scrambled.img.pixels, manual.img.pixels);
}

#[test]
fn test_buffer_construction_and_extract() {
    let buf = PixelBuffer::new(2, 2);
    assert_eq!(buf.width, 2);
    assert_eq!(buf.height, 2);
    assert_eq!(buf.pixels, vec![grey(0); 4]);
    let mut filled = PixelBuffer::from_pixel(2, 1, Rgb::new(3, 2, 1));
    filled.put_pixel(1, 0, Rgb::new(9, 9, 9));
    assert_eq!(filled.get_pixel(0, 0), Rgb::new(3, 2, 1));
    assert_eq!(filled.get_pixel(1, 0), Rgb::new(9, 9, 9));
    let img = MyRgbImage::new(filled);
    let out = img.extract();
    assert_eq!(out.pixels, vec![Rgb::new(3, 2, 1), Rgb::new(9, 9, 9)]);
}
