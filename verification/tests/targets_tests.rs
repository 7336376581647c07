use base64::Engine;
use mouse_clicker::error::AppError;
use mouse_clicker::picture::{to_luma, GrayscaleBuffer};
use mouse_clicker::profiles::FileLocation;
use mouse_clicker::targets::{
    base64_to_image, decode_target, picture_from_decoded, ImageLibrary, TargetImage,
};

struct Noise(u64);

impl Noise {
    fn next(&mut self) -> u8 {
        self.0 = self.0.wrapping_mul(6364136223846793005).wrapping_add(1442695040888963407);
        (self.0 >> 56) as u8
    }
}

fn noise(width: u32, height: u32, seed: u64) -> Vec<u8> {
    let mut n = Noise(seed);
    (0..width * height).map(|_| n.next()).collect()
}

fn stored(width: u32, height: u32, pixels: &[u8]) -> String {
    let mut bytes = Vec::new();
    image::write_buffer_with_format(
        &mut std::io::Cursor::new(&mut bytes),
        pixels,
        width,
        height,
        image::ColorType::L8,
        image::ImageFormat::Png,
    )
    .unwrap();
    base64::engine::general_purpose::STANDARD.encode(&bytes)
}

fn target(id: &str, data: String, threshold: u32, click_offset: Option<(i32, i32)>) -> TargetImage {
    TargetImage { id: id.to_string(), name: id.to_uppercase(), image_data: data, threshold, click_offset }
}

fn same(a: &GrayscaleBuffer, width: u32, height: u32, pixels: &[u8]) -> bool {
    if a.width() != width || a.height() != height {
        return false;
    }
    for y in 0..height {
        for x in 0..width {
            if a.get_pixel(x, y) != pixels[(y * width + x) as usize] {
                return false;
            }
        }
    }
    true
}

#[test]
fn luma_of_colours() {
    assert_eq!(to_luma(0, 0, 0), 0);
    assert_eq!(to_luma(255, 255, 255), 255);
    assert_eq!(to_luma(255, 0, 0), 54);
    assert_eq!(to_luma(0, 255, 0), 182);
    assert_eq!(to_luma(0, 0, 255), 18);
    assert_eq!(to_luma(10, 20, 30), 18);
}

#[test]
fn grayscale_of_colour_picture() {
    let rgba = vec![255, 0, 0, 255, 0, 255, 0, 0, 0, 0, 255, 7, 10, 20, 30, 40];
    let g = GrayscaleBuffer::from_rgba(2, 2, &rgba).unwrap();
    assert!(same(&g, 2, 2, &[54, 182, 18, 18]));
    assert!(GrayscaleBuffer::from_rgba(2, 2, &rgba[..15].to_vec()).is_none());
    assert!(GrayscaleBuffer::from_rgba(4, 1, &rgba).is_some());
    assert!(GrayscaleBuffer::from_rgba(4, 2, &rgba).is_none());
    assert!(GrayscaleBuffer::from_rgba(0, 0, &Vec::new()).is_some());
    let colour = image::RgbaImage::from_raw(2, 2, rgba.clone()).unwrap();
    let luma = image::DynamicImage::ImageRgba8(colour).to_luma8().into_raw();
    assert!(same(&g, 2, 2, &luma));
}

#[test]
fn stored_picture_is_decoded() {
    let pixels = noise(7, 5, 3);
    let data = stored(7, 5, &pixels);
    let picture = decode_target(&data).unwrap();
    assert!(same(&picture, 7, 5, &pixels));
    let again = base64_to_image(&data).unwrap();
    assert!(same(&again, 7, 5, &pixels));
}

#[test]
fn unreadable_pictures_are_refused() {
    assert!(matches!(decode_target("not base64!"), Err(AppError::Base64Error)));
    assert!(matches!(decode_target("aGVsbG8="), Err(AppError::ImageError)));
    assert!(matches!(decode_target(""), Err(AppError::ImageError)));
    assert!(matches!(base64_to_image(""), Err(AppError::ParseError)));
    assert!(matches!(base64_to_image("not base64!"), Err(AppError::ParseError)));
    assert!(matches!(base64_to_image("aGVsbG8="), Err(AppError::ParseError)));
}

#[test]
fn decoded_parts_must_fit_together() {
    assert!(picture_from_decoded(Ok((2, 2, vec![1, 2, 3, 4]))).is_ok());
    assert!(matches!(picture_from_decoded(Ok((2, 2, vec![1, 2, 3]))), Err(AppError::ImageError)));
    assert!(matches!(
        picture_from_decoded(Err(AppError::Base64Error)),
        Err(AppError::Base64Error)
    ));
}

#[test]
fn library_keeps_targets_in_order() {
    let mut lib = ImageLibrary::new("targets");
    assert!(lib.get_targets().is_empty());
    lib.add_target(target("a", String::new(), 1, None));
    lib.add_target(target("b", String::new(), 2, None));
    lib.add_target(target("a", String::new(), 3, None));
    let ids: Vec<&str> = lib.get_targets().iter().map(|t| t.id.as_str()).collect();
    assert_eq!(ids, vec!["a", "b", "a"]);
    assert_eq!(lib.find_target("a"), Some(0));
    assert_eq!(lib.find_target("b"), Some(1));
    assert_eq!(lib.find_target("c"), None);
    assert_eq!(lib.find_target(""), None);
    assert_eq!(
        lib.target_path("a"),
        FileLocation { dir: "targets".to_string(), file: "a.json".to_string() }
    );
}

#[test]
fn removing_a_target_removes_all_of_that_name() {
    let mut lib = ImageLibrary::new("targets");
    lib.add_target(target("a", String::new(), 1, None));
    lib.add_target(target("b", String::new(), 2, None));
    lib.add_target(target("a", String::new(), 3, None));
    lib.add_target(target("c", String::new(), 4, None));
    assert!(!lib.remove_target("x"));
    assert_eq!(lib.get_targets().len(), 4);
    assert!(lib.remove_target("a"));
    let left: Vec<u32> = lib.get_targets().iter().map(|t| t.threshold).collect();
    assert_eq!(left, vec![2, 4]);
    assert!(!lib.remove_target("a"));
    assert!(lib.remove_target("c"));
    assert!(lib.remove_target("b"));
    assert!(lib.get_targets().is_empty());
    lib.add_target(target("z", String::new(), 9, None));
    lib.clear_targets();
    assert!(lib.get_targets().is_empty());
}

#[test]
fn library_finds_target_on_screen() {
    let screen_pixels = noise(120, 90, 77);
    let mut patch = Vec::new();
    for y in 30..50u32 {
        for x in 40..64u32 {
            patch.push(screen_pixels[(y * 120 + x) as usize]);
        }
    }
    let screen = GrayscaleBuffer::new(120, 90, screen_pixels).unwrap();
    let mut lib = ImageLibrary::new("targets");
    lib.add_target(target("centre", stored(24, 20, &patch), 950_000, None));
    lib.add_target(target("offset", stored(24, 20, &patch), 950_000, Some((-3, 5))));
    lib.add_target(target("stranger", stored(24, 20, &noise(24, 20, 5)), 950_000, None));
    lib.add_target(target("broken", "@@@".to_string(), 950_000, None));
    lib.add_target(target("empty", "aGVsbG8=".to_string(), 950_000, None));
    lib.add_target(target("huge", stored(200, 200, &noise(200, 200, 6)), 950_000, None));
    assert_eq!(lib.find_on_screen("centre", &screen), Ok(Some((52, 40))));
    assert_eq!(lib.find_on_screen("offset", &screen), Ok(Some((37, 35))));
    assert_eq!(lib.find_on_screen("stranger", &screen), Ok(None));
    assert_eq!(lib.find_on_screen("broken", &screen), Err(AppError::Base64Error));
    assert_eq!(lib.find_on_screen("empty", &screen), Err(AppError::ImageError));
    assert_eq!(lib.find_on_screen("huge", &screen), Err(AppError::ConfigInputError));
    assert_eq!(lib.find_on_screen("missing", &screen), Err(AppError::ParseError));
}
