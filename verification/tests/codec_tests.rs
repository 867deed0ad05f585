use filty::MyRgbImage;
use filty::PixelBuffer;
use filty::Rgb;
use filty::Error;

/// A `width` by `height` buffer whose pixel at `(x, y)` holds the value
/// `x + y * width` on every channel.
fn create_sample(width: u32, height: u32) -> MyRgbImage {
    let mut sample = PixelBuffer::from_pixel(width, height, Rgb::new(0, 0, 0));
    for y in 0..height {
        for x in 0..width {
            let v = (x + y * width) as u8;
            sample.put_pixel(x, y, Rgb::new(v, v, v));
        }
    }
    MyRgbImage::new(sample)
}

fn grey(v: u8) -> Rgb {
    Rgb::new(v, v, v)
}

#[test]
fn test_error_out_of_bounds_line() {
    // A row index is out of bounds only against the height: the 1-wide,
    // 5-tall buffer has rows 0 through 4.
    assert!(matches!(
        create_sample(1, 5).get_line(5),
        Err(Error::IndexOutOfBounds)
    ));
}

#[test]
fn test_error_out_of_bounds_column() {
    // A column index is out of bounds only against the width: the
    // 5-wide, 1-tall buffer has columns 0 through 4.
    assert!(matches!(
        create_sample(5, 1).get_column(5),
        Err(Error::IndexOutOfBounds)
    ));
}

#[test]
fn test_get_line_against_height_only() {
    // Every row of a buffer taller than it is wide is readable.
    let img = create_sample(1, 5);
    for r in 0..5 {
        assert_eq!(img.get_line(r).unwrap(), vec![grey(r as u8)]);
    }
    assert!(matches!(img.get_line(6), Err(Error::IndexOutOfBounds)));
}

#[test]
fn test_get_column_against_width_only() {
    // Every column of a buffer wider than it is tall is readable.
    let img = create_sample(5, 1);
    for c in 0..5 {
        assert_eq!(img.get_column(c).unwrap(), vec![grey(c as u8)]);
    }
    assert!(matches!(img.get_column(6), Err(Error::IndexOutOfBounds)));
}

#[test]
fn test_getting_single_line_image() {
    assert_eq!(
        create_sample(5, 1).get_line(0).unwrap(),
        vec![grey(0), grey(1), grey(2), grey(3), grey(4)]
    );
}

#[test]
fn test_getting_single_column_image() {
    assert_eq!(
        create_sample(1, 5).get_column(0).unwrap(),
        vec![grey(0), grey(1), grey(2), grey(3), grey(4)]
    );
}

#[test]
fn test_getting_line() {
    assert_eq!(
        create_sample(3, 3).get_line(1).unwrap(),
        vec![grey(3), grey(4), grey(5)]
    );
}

#[test]
fn test_getting_column() {
    assert_eq!(
        create_sample(3, 3).get_column(1).unwrap(),
        vec![grey(1), grey(4), grey(7)]
    );
}

#[test]
fn test_getting_lines_interval() {
    assert_eq!(
        create_sample(3, 3).get_lines_interval(0, 1).unwrap(),
        vec![grey(0), grey(1), grey(2), grey(3), grey(4), grey(5)]
    );
}

#[test]
fn test_getting_columns_interval() {
    assert_eq!(
        create_sample(3, 3).get_columns_interval(0, 1).unwrap(),
        vec![grey(0), grey(3), grey(6), grey(1), grey(4), grey(7)]
    );
}

#[test]
fn test_getting_lines_full_interval() {
    assert_eq!(
        create_sample(5, 4).get_lines_interval(0, 3).unwrap(),
        vec![
            grey(00), grey(01), grey(02), grey(03), grey(04),
            grey(05), grey(06), grey(07), grey(08), grey(09),
            grey(10), grey(11), grey(12), grey(13), grey(14),
            grey(15), grey(16), grey(17), grey(18), grey(19),
        ]
    );
}

#[test]
fn test_lines_range_roundtrip_is_identity() {
    for lo in 0..=3u32 {
        for hi in lo..=3u32 {
            let mut img = create_sample(3, 3);
            let before = img.img.pixels.clone();
            let run = img.get_lines_range(lo, hi).unwrap();
            img.set_lines_range(lo, hi, &run).unwrap();
            assert_eq!(img.img.pixels, before);
        }
    }
}

#[test]
fn test_columns_range_roundtrip_is_identity() {
    for lo in 0..=3u32 {
        for hi in lo..=3u32 {
            let mut img = create_sample(3, 3);
            let before = img.img.pixels.clone();
            let run = img.get_columns_range(lo, hi).unwrap();
            img.set_columns_range(lo, hi, &run).unwrap();
            assert_eq!(img.img.pixels, before);
        }
    }
}

#[test]
fn test_set_lines_range_writes_back_transformed_run() {
    let mut img = create_sample(3, 3);
    let run: Vec<Rgb> = img
        .get_lines_range(1, 3)
        .unwrap()
        .into_iter()
        .map(|p| Rgb::new(p.r.wrapping_add(1), p.g, p.b))
        .collect();
    img.set_lines_range(1, 3, &run).unwrap();
    assert_eq!(img.get_line(0).unwrap(), vec![grey(0), grey(1), grey(2)]);
    assert_eq!(
        img.get_line(1).unwrap(),
        vec![Rgb::new(4, 3, 3), Rgb::new(5, 4, 4), Rgb::new(6, 5, 5)]
    );
    assert_eq!(
        img.get_line(2).unwrap(),
        vec![Rgb::new(7, 6, 6), Rgb::new(8, 7, 7), Rgb::new(9, 8, 8)]
    );
}

#[test]
fn test_set_lines_range_shape_mismatch() {
    let mut img = create_sample(3, 3);
    let short = vec![grey(1), grey(2)];
    assert!(matches!(
        img.set_lines_range(0, 2, &short),
        Err(Error::ShapeMismatch)
    ));
    assert_eq!(img.img.pixels, create_sample(3, 3).img.pixels);
}

#[test]
fn test_set_columns_range_shape_mismatch() {
    let mut img = create_sample(3, 3);
    let long = vec![grey(1); 7];
    assert!(matches!(
        img.set_columns_range(0, 2, &long),
        Err(Error::ShapeMismatch)
    ));
}

#[test]
fn test_set_lines_range_out_of_bounds() {
    let mut img = create_sample(3, 3);
    let run = vec![grey(0); 3];
    assert!(matches!(
        img.set_lines_range(3, 4, &run),
        Err(Error::IndexOutOfBounds)
    ));
}

#[test]
fn test_get_lines_range_out_of_bounds() {
    let img = create_sample(3, 3);
    assert!(matches!(
        img.get_lines_range(2, 4),
        Err(Error::IndexOutOfBounds)
    ));
    assert!(matches!(
        img.get_columns_range(1, 5),
        Err(Error::IndexOutOfBounds)
    ));
}

#[test]
fn test_get_lines_interval_out_of_bounds() {
    let img = create_sample(3, 3);
    assert!(matches!(
        img.get_lines_interval(0, 3),
        Err(Error::IndexOutOfBounds)
    ));
    assert!(matches!(
        img.get_columns_interval(1, 3),
        Err(Error::IndexOutOfBounds)
    ));
}

#[test]
fn test_get_interval_with_reversed_endpoints_is_empty() {
    let img = create_sample(3, 3);
    assert_eq!(img.get_lines_interval(2, 0).unwrap(), vec![]);
    assert_eq!(img.get_columns_interval(2, 1).unwrap(), vec![]);
}

#[test]
fn test_zero_sized_buffer_operations() {
    let mut img = MyRgbImage::new(PixelBuffer::new(0, 0));
    img.blend(filty::RgbFilter::RgbNot).unwrap();
    assert_eq!(img.get_lines_range(0, 0).unwrap(), vec![]);
    assert!(matches!(img.get_line(0), Err(Error::IndexOutOfBounds)));
    img.mess_everything();
    assert_eq!(img.img.pixels, vec![]);
}

#[test]
fn test_empty_ranges_are_not_errors() {
    let mut img = create_sample(3, 3);
    assert_eq!(img.get_lines_range(2, 2).unwrap(), vec![]);
    assert_eq!(img.get_columns_range(9, 4).unwrap(), vec![]);
    let empty: Vec<Rgb> = vec![];
    img.set_lines_range(2, 2, &empty).unwrap();
    assert_eq!(img.img.pixels, create_sample(3, 3).img.pixels);
}
