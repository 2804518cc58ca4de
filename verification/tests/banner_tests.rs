use mcb::Banner;
use mcb::Color;
use mcb::Error;
use mcb::Img;
use mcb::Pattern;
use mcb::SeededRng;
use mcb::clone_img;
use mcb::crop_pattern;
use mcb::tint_image;

fn solid(width: u32, height: u32, rgba: [u8; 4]) -> Img {
    let mut pixels = Vec::new();
    for _ in 0..width * height {
        pixels.extend_from_slice(&rgba);
    }
    Img { width, height, pixels }
}

#[test]
fn tint_scales_channels_and_keeps_alpha() {
    let img = solid(2, 1, [100, 200, 50, 7]);
    let tinted = tint_image(img, &Color::White);
    // White is #F9FFFE: floor(100*249/255), floor(200*255/255), floor(50*254/255).
    assert_eq!(&tinted.pixels[0..4], &[97, 200, 49, 7]);
    assert_eq!(&tinted.pixels[4..8], &[97, 200, 49, 7]);
}

#[test]
fn tint_with_black_darkens() {
    let img = solid(1, 1, [255, 255, 255, 255]);
    let tinted = tint_image(img, &Color::Black);
    // Black is #1D1D21.
    assert_eq!(tinted.pixels, vec![0x1D, 0x1D, 0x21, 255]);
}

#[test]
fn crop_takes_front_face_at_offset_one() {
    // A 22x42 texture whose red channel encodes the source column and green
    // the source row.
    let mut pixels = Vec::new();
    for y in 0..42u32 {
        for x in 0..22u32 {
            pixels.extend_from_slice(&[x as u8, y as u8, 0, 255]);
        }
    }
    let raw = Img { width: 22, height: 42, pixels };
    let cropped = crop_pattern(&raw);
    assert_eq!(cropped.width, 20);
    assert_eq!(cropped.height, 40);
    for y in 0..40u32 {
        for x in 0..20u32 {
            let k = (4 * (y * 20 + x)) as usize;
            assert_eq!(cropped.pixels[k], (x + 1) as u8);
            assert_eq!(cropped.pixels[k + 1], (y + 1) as u8);
        }
    }
}

#[test]
fn crop_clips_small_textures() {
    let raw = solid(10, 10, [1, 2, 3, 4]);
    let cropped = crop_pattern(&raw);
    assert_eq!(cropped.width, 9);
    assert_eq!(cropped.height, 9);
}

#[test]
fn banner_base_is_tinted_onto_canvas() {
    // An opaque white base: compositing it onto the blank canvas must
    // reproduce the tinted base exactly, pixel for pixel.
    let base = solid(20, 40, [255, 255, 255, 255]);
    let banner = Banner::new(base, Color::White).unwrap();
    let img = banner.img_owned();
    assert_eq!(img.width, 20);
    assert_eq!(img.height, 40);
    assert_eq!(&img.pixels[0..4], &[0xF9, 0xFF, 0xFE, 255]);
}

#[test]
fn banner_rejects_wrong_base_dimensions() {
    let base = solid(20, 39, [255, 255, 255, 255]);
    assert_eq!(Banner::new(base, Color::White).err(), Some(Error::DimensionMismatch));
}

#[test]
fn opaque_pattern_replaces_canvas_pixels() {
    let base = solid(20, 40, [255, 255, 255, 255]);
    let mut banner = Banner::new(base, Color::White).unwrap();
    // A 22x42 raw texture of opaque pure red, cropped to 20x40.
    let raw = solid(22, 42, [255, 0, 0, 255]);
    let pattern = Pattern::new(raw);
    banner.add_pattern(pattern, &Color::White).unwrap();
    let img = banner.img_owned();
    // Tinting pure red with near-white keeps floor(255*249/255) = 249.
    assert_eq!(&img.pixels[0..4], &[249, 0, 0, 255]);
}

#[test]
fn transparent_pattern_changes_nothing() {
    let base = solid(20, 40, [255, 255, 255, 255]);
    let mut banner = Banner::new(base, Color::Lime).unwrap();
    let before = clone_img(&banner.image);
    let raw = solid(22, 42, [9, 9, 9, 0]);
    banner.add_pattern(Pattern::new(raw), &Color::Red).unwrap();
    assert_eq!(banner.image.pixels, before.pixels);
}

#[test]
fn wrong_pattern_dimensions_fail_without_mutation() {
    let base = solid(20, 40, [255, 255, 255, 255]);
    let mut banner = Banner::new(base, Color::Blue).unwrap();
    let before = clone_img(&banner.image);
    // A 10x10 texture crops to 9x9, not the 20x40 face.
    let raw = solid(10, 10, [1, 1, 1, 255]);
    let r = banner.add_pattern(Pattern::new(raw), &Color::Red);
    assert_eq!(r, Err(Error::DimensionMismatch));
    assert_eq!(banner.image.pixels, before.pixels);
}

#[test]
fn load_base_decodes_and_crops() {
    // Encode a 22x42 PNG whose red channel is the column index.
    let buf = image::RgbaImage::from_fn(22, 42, |x, y| {
        image::Rgba([x as u8, y as u8, 7, 255])
    });
    let mut bytes: Vec<u8> = Vec::new();
    buf.write_to(&mut std::io::Cursor::new(&mut bytes), image::ImageFormat::Png)
        .unwrap();
    let img = Banner::load_base(&bytes).unwrap();
    assert_eq!(img.width, 20);
    assert_eq!(img.height, 40);
    assert_eq!(&img.pixels[0..4], &[1, 1, 7, 255]);
}

#[test]
fn load_base_rejects_garbage() {
    let bytes = vec![1, 2, 3, 4, 5];
    assert_eq!(Banner::load_base(&bytes).err(), Some(Error::DecodeFailure));
}

fn library_of(n: usize) -> Vec<(String, Img)> {
    (0..n)
        .map(|i| {
            (
                i.to_string(),
                solid(22, 42, [(40 * i) as u8, 100, 200, 255]),
            )
        })
        .collect()
}

#[test]
fn render_from_pattern_list_is_deterministic() {
    let lib = library_of(3);
    let mut rng1 = SeededRng::from_seed(0);
    let mut rng2 = SeededRng::from_seed(0);
    let p1 = mcb::generate_pattern_list(&mut rng1, 3, vec![], None).unwrap();
    let p2 = mcb::generate_pattern_list(&mut rng2, 3, vec![], None).unwrap();
    let img1 =
        Banner::from_pattern_list(&mut rng1, solid(20, 40, [200, 200, 200, 255]), None, p1, &lib)
            .unwrap();
    let img2 =
        Banner::from_pattern_list(&mut rng2, solid(20, 40, [200, 200, 200, 255]), None, p2, &lib)
            .unwrap();
    assert_eq!(img1.pixels, img2.pixels);
    assert_eq!(img1.width, 20);
    assert_eq!(img1.height, 40);
}

#[test]
fn render_rejects_undersized_library_texture() {
    let mut lib = library_of(2);
    lib[1].1 = solid(5, 5, [0, 0, 0, 255]);
    let mut rng = SeededRng::from_seed(3);
    let patterns = vec![(1usize, Color::Red)];
    let r = Banner::from_pattern_list(
        &mut rng,
        solid(20, 40, [255, 255, 255, 255]),
        Some(Color::White),
        patterns,
        &lib,
    );
    assert_eq!(r.err(), Some(Error::DimensionMismatch));
}
