use koharu::mask_fill::{
    can_fill, can_sample, detect_surrounding_color, fill_inputs, fill_mask_with_color, mask_bounds,
    BaseImage, DetectFillEngine, FillError, SolidFillEngine, MASK_THRESHOLD,
};
use koharu::raster::{GrayImage, Image, Rgba, RgbaImage};
use koharu::scene::BlobRef;

fn gray(width: u32, height: u32, value: impl Fn(u32, u32) -> u8) -> GrayImage {
    let pixels = (0..height).flat_map(|y| (0..width).map(move |x| (x, y))).map(|(x, y)| value(x, y));
    Image::from_pixels(width, height, pixels.collect()).unwrap()
}

fn rgba(width: u32, height: u32, value: impl Fn(u32, u32) -> Rgba) -> RgbaImage {
    let pixels = (0..height).flat_map(|y| (0..width).map(move |x| (x, y))).map(|(x, y)| value(x, y));
    Image::from_pixels(width, height, pixels.collect()).unwrap()
}

fn color(r: u8, g: u8, b: u8, a: u8) -> Rgba {
    Rgba { r, g, b, a }
}

fn square(x: u32, y: u32) -> u8 {
    if (20..24).contains(&x) && (21..25).contains(&y) { 255 } else { 0 }
}

#[test]
fn image_needs_a_pixel_for_each_place() {
    assert!(Image::from_pixels(2, 2, vec![0u8; 3]).is_none());
    assert!(Image::from_pixels(2, 2, vec![0u8; 5]).is_none());
    let image = Image::from_pixels(2, 1, vec![3u8, 4]).unwrap();
    assert_eq!((image.width(), image.height()), (2, 1));
    assert_eq!(*image.pixel(1, 0), 4);
    assert_eq!(image.into_pixels(), vec![3, 4]);
    assert!(Image::from_pixels(u32::MAX, u32::MAX, vec![0u8; 1]).is_none());
}

#[test]
fn bounds_hold_every_pixel_from_the_threshold_on() {
    assert_eq!(MASK_THRESHOLD, 32);
    let mask = gray(10, 8, |x, y| match (x, y) {
        (3, 5) => 32,
        (7, 2) => 200,
        (0, 0) => 31,
        _ => 0,
    });
    assert_eq!(mask_bounds(&mask, 32), Some((3, 2, 7, 5)));
    assert_eq!(mask_bounds(&mask, 31), Some((0, 0, 7, 5)));
    assert_eq!(mask_bounds(&mask, 201), None);
    assert_eq!(mask_bounds(&mask, 0), Some((0, 0, 9, 7)));
    assert_eq!(mask_bounds(&gray(0, 0, |_, _| 0), 0), None);
}

#[test]
fn surrounding_color_is_the_mean_of_the_ring() {
    let mask = gray(60, 60, square);
    // Red up to column 9, blue behind; the ring reaches from column 6 to 37.
    let base = rgba(60, 60, |x, _| if x < 10 { color(100, 0, 7, 9) } else { color(0, 50, 7, 9) });
    assert!(can_sample(&base, &mask));
    let rows: u32 = 38 - 7 + 1;
    let red: u32 = 4 * rows;
    let total: u32 = (37 - 6 + 1) * rows - 16;
    assert_eq!(
        detect_surrounding_color(&base, &mask),
        color((100 * red / total) as u8, (50 * (total - red) / total) as u8, 7, 255)
    );
}

#[test]
fn pixels_beyond_the_ring_and_under_the_mask_do_not_count() {
    let mask = gray(60, 60, square);
    let ring = color(10, 20, 30, 255);
    let base = rgba(60, 60, |x, y| {
        let in_ring = (6..=37).contains(&x) && (7..=38).contains(&y);
        if in_ring && square(x, y) == 0 { ring } else { color(255, 0, 255, 0) }
    });
    assert_eq!(detect_surrounding_color(&base, &mask), ring);
}

#[test]
fn uncovered_pixels_inside_the_box_do_not_count() {
    let mask = gray(4, 1, |x, _| if x % 2 == 0 { 255 } else { 0 });
    let greys = [0u8, 200, 0, 100];
    let base = rgba(4, 1, |x, _| {
        let grey = greys[x as usize];
        color(grey, grey, grey, 255)
    });
    assert!(can_sample(&base, &mask));
    assert_eq!(detect_surrounding_color(&base, &mask), color(100, 100, 100, 255));
}

#[test]
fn hole_in_a_full_mask_is_no_ring() {
    let mask = gray(3, 3, |x, y| if (x, y) == (1, 1) { 0 } else { 255 });
    let base = rgba(3, 3, |_, _| color(1, 2, 3, 4));
    assert_eq!(detect_surrounding_color(&base, &mask), Rgba::white());
}

#[test]
fn nothing_to_sample_is_white() {
    let base = rgba(4, 4, |_, _| color(1, 2, 3, 4));
    let white = color(255, 255, 255, 255);
    assert_eq!(Rgba::white(), white);
    assert_eq!(detect_surrounding_color(&base, &gray(4, 4, |_, _| 255)), white);
    assert_eq!(detect_surrounding_color(&base, &gray(4, 4, |_, _| 31)), white);
}

#[test]
fn fill_replaces_covered_pixels_only() {
    let base = rgba(3, 2, |x, y| color(x as u8, y as u8, 0, 5));
    let mask = gray(3, 2, |x, y| if x == 1 && y == 1 { 32 } else { 31 });
    let red = color(255, 0, 0, 128);
    let filled = fill_mask_with_color(&base, &mask, red);
    for y in 0..2 {
        for x in 0..3 {
            let expected = if (x, y) == (1, 1) { red } else { color(x as u8, y as u8, 0, 5) };
            assert_eq!(*filled.pixel(x, y), expected);
        }
    }
    let again = fill_mask_with_color(&filled, &mask, color(9, 9, 9, 9));
    let direct = fill_mask_with_color(&base, &mask, color(9, 9, 9, 9));
    assert_eq!(again.into_pixels(), direct.into_pixels());
}

#[test]
fn larger_mask_fits_and_a_smaller_one_does_not() {
    let base = rgba(3, 3, |_, _| color(1, 1, 1, 1));
    assert!(can_fill(&base, &gray(4, 3, |_, _| 0)));
    assert!(!can_fill(&base, &gray(2, 3, |_, _| 0)));
    assert!(!can_fill(&base, &gray(3, 2, |_, _| 0)));
    assert!(can_fill(&rgba(0, 5, |_, _| color(0, 0, 0, 0)), &gray(0, 0, |_, _| 0)));
    assert!(can_sample(&base, &gray(4, 3, |_, _| 0)));
    assert!(!can_sample(&base, &gray(4, 3, |x, _| if x == 0 { 255 } else { 0 })));
    assert!(can_sample(&base, &gray(4, 3, |x, _| if x == 3 { 255 } else { 0 })));
}

#[test]
fn detected_fill_blends_into_a_uniform_background() {
    let paper = color(250, 240, 230, 255);
    let mask = gray(60, 60, square);
    let base = rgba(60, 60, |x, y| if square(x, y) > 0 { color(0, 0, 0, 255) } else { paper });
    let filled = DetectFillEngine.run(&base, &mask);
    assert!(filled.into_pixels().into_iter().all(|pixel| pixel == paper));
}

#[test]
fn solid_fill_needs_a_color() {
    let error = SolidFillEngine.color(None).unwrap_err();
    assert_eq!(error, FillError::NoFillColor);
    assert_eq!(error.message(), "mask-fill-solid requires options.fill_color");
    let given = color(1, 2, 3, 4);
    assert_eq!(SolidFillEngine.color(Some(given)), Ok(given));
    let base = rgba(1, 1, |_, _| color(0, 0, 0, 0));
    let filled = SolidFillEngine.run(&base, &gray(1, 1, |_, _| 255), given);
    assert_eq!(filled.into_pixels(), vec![given]);
}

fn blob(hash: &str) -> Option<BlobRef> {
    Some(BlobRef { hash: hash.to_string() })
}

#[test]
fn fill_starts_from_the_inpainted_image_where_there_is_one() {
    let inputs = fill_inputs(blob("s"), blob("b"), blob("i")).unwrap();
    assert_eq!((inputs.mask.hash.as_str(), inputs.bubble_mask.hash.as_str()), ("s", "b"));
    assert!(matches!(inputs.base, BaseImage::Inpainted(image) if image.hash == "i"));
    let inputs = fill_inputs(blob("s"), blob("b"), None).unwrap();
    assert!(matches!(inputs.base, BaseImage::Source));
}

#[test]
fn fill_needs_both_masks() {
    let error = fill_inputs(None, None, None).unwrap_err();
    assert_eq!(error, FillError::NoSegmentMask);
    assert_eq!(error.message(), "no Segment mask on page");
    let error = fill_inputs(blob("s"), None, blob("i")).unwrap_err();
    assert_eq!(error, FillError::NoBubbleMask);
    assert_eq!(error.message(), "no Bubble mask on page");
}
