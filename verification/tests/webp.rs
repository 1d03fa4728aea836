use image::DynamicImage;
use koharu::webp::{encode_webp, Channels, WebpError, MAX_WEBP_DIM};

fn decoded(channels: Channels, width: u32, height: u32, samples: &[u8]) -> DynamicImage {
    let file = encode_webp(channels, width, height, samples).unwrap();
    assert!(file.starts_with(b"RIFF"));
    assert_eq!(&file[8..12], b"WEBP");
    assert_ne!(file, samples);
    image::load_from_memory(&file).unwrap()
}

#[test]
fn channels_are_counted() {
    let all = [Channels::Luma, Channels::LumaAlpha, Channels::Rgb, Channels::Rgba];
    assert_eq!(all.map(Channels::count), [1, 2, 3, 4]);
}

#[test]
fn encoding_loses_nothing() {
    let rgba: Vec<u8> = (0..40 * 30 * 4).map(|i: u32| (i * 7 % 251) as u8).collect();
    let image = decoded(Channels::Rgba, 40, 30, &rgba);
    assert_eq!((image.width(), image.height()), (40, 30));
    assert_eq!(image.to_rgba8().into_raw(), rgba);
    let rgb = [1, 2, 3, 4, 5, 6];
    assert_eq!(decoded(Channels::Rgb, 1, 2, &rgb).to_rgb8().into_raw(), rgb);
}

#[test]
fn gray_is_spread_over_the_colors() {
    let image = decoded(Channels::Luma, 2, 1, &[9, 200]);
    assert_eq!(image.to_rgba8().into_raw(), vec![9, 9, 9, 255, 200, 200, 200, 255]);
    let image = decoded(Channels::LumaAlpha, 2, 1, &[9, 100, 200, 50]);
    assert_eq!(image.to_rgba8().into_raw(), vec![9, 9, 9, 100, 200, 200, 200, 50]);
}

#[test]
fn encoding_is_what_the_image_crate_writes() {
    let rgba: Vec<u8> = (0..16).collect();
    let image = image::RgbaImage::from_raw(2, 2, rgba.clone()).unwrap();
    let mut out = std::io::Cursor::new(Vec::new());
    DynamicImage::ImageRgba8(image).write_to(&mut out, image::ImageFormat::WebP).unwrap();
    assert_eq!(encode_webp(Channels::Rgba, 2, 2, &rgba).unwrap(), out.into_inner());
}

#[test]
fn sizes_that_webp_lacks_are_refused() {
    assert!(matches!(encode_webp(Channels::Rgba, 0, 0, &[]), Err(WebpError::Dimensions(_))));
    assert!(matches!(encode_webp(Channels::Luma, 0, 5, &[]), Err(WebpError::Dimensions(_))));
    let row = vec![1u8; MAX_WEBP_DIM as usize + 1];
    let wide = encode_webp(Channels::Luma, MAX_WEBP_DIM + 1, 1, &row);
    assert!(matches!(wide, Err(WebpError::Dimensions(_))));
    assert!(encode_webp(Channels::Luma, MAX_WEBP_DIM, 1, &row[1..]).is_ok());
}
