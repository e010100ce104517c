use screen_match::assets::{apply_threshold, AssetTemplate, BLOCK_RADIUS, DELTA};
use screen_match::bitmap::{BitmapError, GrayBitmap, LoadError, RgbBitmap};

fn noise(width: u32, height: u32, seed: u32) -> RgbBitmap {
    let mut state = seed;
    let mut data = Vec::new();
    for _ in 0..(3 * width * height) {
        state = state.wrapping_mul(1664525).wrapping_add(1013904223);
        data.push((state >> 24) as u8);
    }
    RgbBitmap::new(width, height, data).unwrap()
}

fn gray(width: u32, height: u32, values: &[u8]) -> RgbBitmap {
    let mut data = Vec::new();
    for &v in values {
        data.push(v);
        data.push(v);
        data.push(v);
    }
    RgbBitmap::new(width, height, data).unwrap()
}

fn luma(img: &RgbBitmap) -> Vec<u8> {
    let rgb = image::RgbImage::from_raw(img.width(), img.height(), img.data().clone()).unwrap();
    image::DynamicImage::ImageRgb8(rgb).to_luma8().into_raw()
}

// Each pixel against the mean of its neighbourhood, cut off at the edges.
fn local_threshold(pixels: &[u8], width: u32, height: u32, radius: u32, delta: i32) -> Vec<u8> {
    let mut out = Vec::new();
    for y in 0..height as i64 {
        for x in 0..width as i64 {
            let mut sum: i64 = 0;
            let mut count: i64 = 0;
            for v in (y - radius as i64)..=(y + radius as i64) {
                for u in (x - radius as i64)..=(x + radius as i64) {
                    if 0 <= u && u < width as i64 && 0 <= v && v < height as i64 {
                        sum += pixels[(v * width as i64 + u) as usize] as i64;
                        count += 1;
                    }
                }
            }
            let mean = sum / count;
            let p = pixels[(y * width as i64 + x) as usize] as i64;
            out.push(if p >= mean - delta as i64 { 255 } else { 0 });
        }
    }
    out
}

#[test]
fn the_design_constants() {
    assert_eq!(BLOCK_RADIUS, 4);
    assert_eq!(DELTA, 5);
}

#[test]
fn apply_threshold_compares_each_pixel_with_its_neighbourhood() {
    for (w, h, seed) in [(17u32, 11u32, 1u32), (40, 30, 2), (3, 3, 3), (1, 1, 4), (1, 25, 5), (25, 1, 6)] {
        let img = noise(w, h, seed);
        let out = apply_threshold(&img);
        assert_eq!((out.width(), out.height()), (w, h));
        assert_eq!(out.pixels(), &local_threshold(&luma(&img), w, h, 4, 5));
    }
}

#[test]
fn apply_threshold_on_given_values() {
    // One row; the neighbourhood reaches four pixels to each side.
    let img = gray(6, 1, &[100, 100, 100, 100, 100, 0]);
    assert_eq!(luma(&img), vec![100, 100, 100, 100, 100, 0]);
    // Means: 100, 83, 83, 83, 83, 80 (whole numbers); a pixel passes at mean - 5.
    assert_eq!(apply_threshold(&img).pixels(), &vec![255, 255, 255, 255, 255, 0]);
    let img = gray(3, 1, &[10, 20, 14]);
    // Mean 14 for each; 10 passes at 9, 14 and 20 too.
    assert_eq!(apply_threshold(&img).pixels(), &vec![255, 255, 255]);
    let img = gray(3, 1, &[8, 20, 14]);
    // Mean 14; 8 does not reach 9.
    assert_eq!(apply_threshold(&img).pixels(), &vec![0, 255, 255]);
    let img = gray(3, 1, &[9, 20, 13]);
    // Mean 14; 9 is just bright enough.
    assert_eq!(apply_threshold(&img).pixels(), &vec![255, 255, 255]);
    // Two rows: the mean of 0, 0, 0, 255, 255, 255 is 127, rounded down.
    let img = gray(3, 2, &[0, 0, 0, 255, 255, 255]);
    assert_eq!(apply_threshold(&img).pixels(), &vec![0, 0, 0, 255, 255, 255]);
    let img = gray(3, 2, &[122, 122, 121, 255, 255, 0]);
    // Sum 875, mean 145, threshold 140.
    assert_eq!(apply_threshold(&img).pixels(), &vec![0, 0, 0, 255, 255, 0]);
}

#[test]
fn a_bitmap_of_one_brightness_comes_out_white() {
    for v in [0u8, 1, 100, 254, 255] {
        let img = gray(13, 11, &vec![v; 13 * 11]);
        assert_eq!(apply_threshold(&img).pixels(), &vec![255u8; 13 * 11]);
    }
}

#[test]
fn apply_threshold_reduces_colour_to_luminance() {
    // Pure colours of equal strength differ in luminance: green is bright,
    // blue is dark.
    let img = RgbBitmap::new(3, 1, vec![255, 0, 0, 0, 255, 0, 0, 0, 255]).unwrap();
    let l = luma(&img);
    assert_eq!(l, vec![54, 182, 18]);
    assert_eq!(apply_threshold(&img).pixels(), &local_threshold(&l, 3, 1, 4, 5));
    assert_eq!(apply_threshold(&img).pixels(), &vec![0, 255, 0]);
}

#[test]
fn apply_threshold_gives_black_and_white_only() {
    let out = apply_threshold(&noise(64, 48, 7));
    assert!(out.pixels().iter().all(|&v| v == 0 || v == 255));
    assert!(out.pixels().iter().any(|&v| v == 0));
    assert!(out.pixels().iter().any(|&v| v == 255));
}

#[test]
fn apply_threshold_twice_gives_the_same_bytes() {
    let img = noise(50, 40, 8);
    let copy = RgbBitmap::new(50, 40, img.data().clone()).unwrap();
    let first = apply_threshold(&img);
    let second = apply_threshold(&img);
    let third = apply_threshold(&copy);
    assert_eq!(first, second);
    assert_eq!(first.pixels(), third.pixels());
}

#[test]
fn template_new_records_the_size() {
    let image = GrayBitmap::new(4, 2, vec![0, 255, 0, 255, 255, 0, 255, 0]).unwrap();
    let t = AssetTemplate::new(image.clone());
    assert_eq!(t.width, 4);
    assert_eq!(t.height, 2);
    assert_eq!(t.image, image);
}

#[test]
fn from_file_decodes_and_preprocesses() {
    let img = noise(20, 12, 9);
    let rgb = image::RgbImage::from_raw(20, 12, img.data().clone()).unwrap();
    let mut bytes = Vec::new();
    image::DynamicImage::ImageRgb8(rgb)
        .write_to(&mut std::io::Cursor::new(&mut bytes), image::ImageFormat::Png)
        .unwrap();
    let t = AssetTemplate::from_file(&bytes).unwrap();
    assert_eq!(t.width, 20);
    assert_eq!(t.height, 12);
    assert_eq!(t.image, apply_threshold(&img));
}

#[test]
fn from_file_fails_on_what_is_no_image() {
    assert_eq!(AssetTemplate::from_file(b"claim_gems.png"), Err(LoadError::Undecodable));
    assert_eq!(AssetTemplate::from_file(&[]), Err(LoadError::Undecodable));
}

#[test]
fn from_file_fails_on_an_image_beyond_the_pixel_limit() {
    let rgb = image::RgbImage::from_raw(4112, 2049, vec![0; 3 * 4112 * 2049]).unwrap();
    let mut bytes = Vec::new();
    image::DynamicImage::ImageRgb8(rgb)
        .write_to(&mut std::io::Cursor::new(&mut bytes), image::ImageFormat::Png)
        .unwrap();
    assert_eq!(
        AssetTemplate::from_file(&bytes),
        Err(LoadError::Unusable(BitmapError::TooLarge))
    );
}

#[test]
fn a_template_file_is_preprocessed_as_its_decoded_image_is() {
    // With an alpha channel, which plays no part.
    let mut state: u32 = 10;
    let mut rgba = Vec::new();
    for _ in 0..(4 * 16 * 9) {
        state = state.wrapping_mul(1664525).wrapping_add(1013904223);
        rgba.push((state >> 24) as u8);
    }
    let img = image::DynamicImage::ImageRgba8(image::RgbaImage::from_raw(16, 9, rgba).unwrap());
    let mut bytes = Vec::new();
    img.write_to(&mut std::io::Cursor::new(&mut bytes), image::ImageFormat::Png).unwrap();
    let decoded = image::load_from_memory(&bytes).unwrap();
    let expected = imageproc::contrast::adaptive_threshold(&decoded.to_luma8(), 4, 5);
    let t = AssetTemplate::from_file(&bytes).unwrap();
    assert_eq!((t.width, t.height), (16, 9));
    assert_eq!(t.image.pixels(), expected.as_raw());
}

#[test]
fn a_gray_template_file_is_preprocessed_as_its_decoded_image_is() {
    let values: Vec<u8> = (0..=255).collect();
    let img = image::DynamicImage::ImageLuma8(image::GrayImage::from_raw(32, 8, values).unwrap());
    let mut bytes = Vec::new();
    img.write_to(&mut std::io::Cursor::new(&mut bytes), image::ImageFormat::Png).unwrap();
    let decoded = image::load_from_memory(&bytes).unwrap();
    let expected = imageproc::contrast::adaptive_threshold(&decoded.to_luma8(), 4, 5);
    let t = AssetTemplate::from_file(&bytes).unwrap();
    assert_eq!(t.image.pixels(), expected.as_raw());
}

#[test]
fn from_bitmap_preprocesses_and_records_the_size() {
    let img = noise(21, 13, 12);
    let t = AssetTemplate::from_bitmap(&img);
    assert_eq!((t.width, t.height), (21, 13));
    assert_eq!(t.image, apply_threshold(&img));
    assert_eq!(t.image.pixels(), &local_threshold(&luma(&img), 21, 13, 4, 5));
}

#[test]
fn from_file_reads_png_and_nothing_else() {
    let img = noise(6, 5, 13);
    let rgb = image::RgbImage::from_raw(6, 5, img.data().clone()).unwrap();
    let mut png = Vec::new();
    image::DynamicImage::ImageRgb8(rgb.clone())
        .write_to(&mut std::io::Cursor::new(&mut png), image::ImageFormat::Png)
        .unwrap();
    assert_eq!(AssetTemplate::from_file(&png), Ok(AssetTemplate::from_bitmap(&img)));
    // The same picture as raw samples is no PNG file.
    assert_eq!(AssetTemplate::from_file(img.data()), Err(LoadError::Undecodable));
    // Nor is a PNG file with its signature damaged.
    let mut damaged = png.clone();
    damaged[1] = b'Q';
    assert_eq!(AssetTemplate::from_file(&damaged), Err(LoadError::Undecodable));
}
