use mouse_clicker::error::AppError;
use mouse_clicker::correlation::{correlation, SCORE_ONE};
use mouse_clicker::image_recognition::{
    conclude, find_click_point, find_template, match_at_scale, refine_wanted,
    resolve_click_point, scale_at, scan, threshold_met, MatchCandidate,
};
use mouse_clicker::picture::{bgra_to_rgba, GrayscaleBuffer, MAX_PIXELS};

struct Noise(u64);

impl Noise {
    fn next(&mut self) -> u8 {
        self.0 = self.0.wrapping_mul(6364136223846793005).wrapping_add(1442695040888963407);
        (self.0 >> 56) as u8
    }
}

fn noise(width: u32, height: u32, seed: u64) -> Vec<u8> {
    let mut n = Noise(seed);
    (0..width * height).map(|_| n.next()).collect()
}

fn crop(pixels: &[u8], width: u32, x: u32, y: u32, w: u32, h: u32) -> Vec<u8> {
    let mut out = Vec::new();
    for row in y..y + h {
        for col in x..x + w {
            out.push(pixels[(row * width + col) as usize]);
        }
    }
    out
}

fn paste(pixels: &mut [u8], width: u32, x: u32, y: u32, patch: &[u8], w: u32, h: u32) {
    for row in 0..h {
        for col in 0..w {
            pixels[((y + row) * width + x + col) as usize] = patch[(row * w + col) as usize];
        }
    }
}

fn picture(width: u32, height: u32, pixels: Vec<u8>) -> GrayscaleBuffer {
    GrayscaleBuffer::new(width, height, pixels).unwrap()
}

#[test]
fn buffer_needs_one_value_per_pixel() {
    assert!(GrayscaleBuffer::new(3, 2, vec![0; 6]).is_some());
    assert!(GrayscaleBuffer::new(3, 2, vec![0; 5]).is_none());
    assert!(GrayscaleBuffer::new(3, 2, vec![0; 7]).is_none());
    assert!(GrayscaleBuffer::new(0, 0, Vec::new()).is_some());
    assert!(GrayscaleBuffer::new(0, 5, Vec::new()).is_some());
    assert!(GrayscaleBuffer::new(u32::MAX, u32::MAX, Vec::new()).is_none());
    assert!(GrayscaleBuffer::new(MAX_PIXELS as u32 + 1, 1, Vec::new()).is_none());
}

#[test]
fn buffer_reads_pixels_row_by_row() {
    let b = picture(3, 2, vec![1, 2, 3, 4, 5, 6]);
    assert_eq!(b.width(), 3);
    assert_eq!(b.height(), 2);
    assert_eq!(b.get_pixel(0, 0), 1);
    assert_eq!(b.get_pixel(2, 0), 3);
    assert_eq!(b.get_pixel(0, 1), 4);
    assert_eq!(b.get_pixel(2, 1), 6);
}

#[test]
fn correlation_of_equal_patches_is_one() {
    let screen = picture(4, 4, (1..=16).collect());
    let template = picture(2, 2, vec![6, 7, 10, 11]);
    assert_eq!(correlation(&screen, &template, 1, 1, 1), SCORE_ONE);
    assert_eq!(correlation(&screen, &screen, 0, 0, 1), SCORE_ONE);
    assert_eq!(correlation(&screen, &screen, 0, 0, 2), SCORE_ONE);
}

#[test]
fn correlation_formula() {
    let screen = picture(2, 1, vec![3, 4]);
    let template = picture(2, 1, vec![4, 3]);
    // cross = 24, squares 25 and 25: (24 / 25)^2 = 0.9216
    assert_eq!(correlation(&screen, &template, 0, 0, 1), 921_600_000_000);
    let other = picture(2, 1, vec![1, 0]);
    // cross = 3, squares 1 and 25: 9 / 25 = 0.36
    assert_eq!(correlation(&screen, &other, 0, 0, 1), 360_000_000_000);
    // one third, rounded down
    let a = picture(3, 1, vec![1, 1, 1]);
    let b = picture(3, 1, vec![1, 0, 0]);
    assert_eq!(correlation(&a, &b, 0, 0, 1), 333_333_333_333);
}

#[test]
fn correlation_with_zero_denominator_is_zero() {
    let black = picture(2, 2, vec![0; 4]);
    let white = picture(2, 2, vec![255; 4]);
    assert_eq!(correlation(&black, &white, 0, 0, 1), 0);
    assert_eq!(correlation(&white, &black, 0, 0, 1), 0);
    assert_eq!(correlation(&black, &black, 0, 0, 1), 0);
    let empty = picture(0, 0, Vec::new());
    assert_eq!(correlation(&white, &empty, 1, 1, 1), 0);
}

#[test]
fn correlation_stride_skips_pixels() {
    let screen = picture(3, 3, vec![5, 0, 5, 0, 0, 0, 5, 0, 5]);
    let template = picture(3, 3, vec![5, 9, 5, 9, 9, 9, 5, 9, 5]);
    assert_eq!(correlation(&screen, &template, 0, 0, 2), SCORE_ONE);
    assert!(correlation(&screen, &template, 0, 0, 1) < SCORE_ONE);
    assert_eq!(correlation(&screen, &template, 0, 0, 7), SCORE_ONE);
}

#[test]
fn scan_keeps_first_of_equal_best() {
    let screen = picture(5, 1, vec![0, 9, 0, 9, 0]);
    let template = picture(1, 1, vec![4]);
    let best = scan(&screen, &template, 0, 0, 5, 1, 1, 1, MatchCandidate::none());
    assert_eq!(best, MatchCandidate { score: SCORE_ONE, x: 1, y: 0 });
    let from_three = scan(&screen, &template, 2, 0, 3, 1, 1, 1, MatchCandidate::none());
    assert_eq!(from_three, MatchCandidate { score: SCORE_ONE, x: 3, y: 0 });
    let even = scan(&screen, &template, 0, 0, 3, 1, 2, 1, MatchCandidate::none());
    assert_eq!(even, MatchCandidate::none());
    let start = MatchCandidate { score: SCORE_ONE, x: 77, y: 88 };
    assert_eq!(scan(&screen, &template, 0, 0, 5, 1, 1, 1, start), start);
}

#[test]
fn candidate_or_better_prefers_first_on_tie() {
    let a = MatchCandidate { score: 5, x: 1, y: 1 };
    let b = MatchCandidate { score: 5, x: 2, y: 2 };
    let c = MatchCandidate { score: 6, x: 3, y: 3 };
    assert_eq!(a.or_better(b), a);
    assert_eq!(a.or_better(c), c);
    assert_eq!(c.or_better(a), c);
    assert_eq!(MatchCandidate::none(), MatchCandidate { score: 0, x: 0, y: 0 });
}

#[test]
fn fine_pass_needs_four_fifths_of_threshold() {
    // 0.8 * 0.9 = 0.72, squared 0.5184
    assert!(refine_wanted(518_400_000_000, 900_000));
    assert!(!refine_wanted(518_399_999_999, 900_000));
    assert!(refine_wanted(0, 0));
    assert!(refine_wanted(SCORE_ONE, 1_000_000));
    assert!(!refine_wanted(0, 1));
    assert!(refine_wanted(1, 1));
    assert!(refine_wanted(11_805_916_201_676_554_896, u32::MAX));
    assert!(!refine_wanted(11_805_916_201_676_554_895, u32::MAX));
}

#[test]
fn threshold_is_compared_squared() {
    assert!(threshold_met(810_000_000_000, 900_000));
    assert!(!threshold_met(809_999_999_999, 900_000));
    assert!(threshold_met(0, 0));
    assert!(!threshold_met(0, 1));
    assert!(threshold_met(SCORE_ONE, 1_000_000));
    assert!(!threshold_met(SCORE_ONE, 1_000_001));
}

#[test]
fn conclude_reports_position_or_nothing() {
    let m = MatchCandidate { score: 902_500_000_000, x: 50, y: 60 };
    assert_eq!(conclude(m, 950_000), Some((50, 60)));
    assert_eq!(conclude(m, 950_001), None);
    assert_eq!(conclude(MatchCandidate::none(), 0), Some((0, 0)));
    assert_eq!(conclude(MatchCandidate::none(), 1), None);
}

#[test]
fn scales_in_order() {
    assert_eq!(scale_at(0), 100);
    assert_eq!(scale_at(1), 90);
    assert_eq!(scale_at(2), 80);
    assert_eq!(scale_at(3), 110);
    assert_eq!(scale_at(4), 120);
}

#[test]
fn match_at_scale_refines_odd_positions() {
    let mut pixels = vec![0u8; 60 * 50];
    let patch = noise(12, 12, 7);
    paste(&mut pixels, 60, 21, 17, &patch, 12, 12);
    let screen = picture(60, 50, pixels);
    let template = picture(12, 12, patch);
    let m = match_at_scale(&screen, &template, 900_000);
    assert_eq!(m, MatchCandidate { score: SCORE_ONE, x: 21, y: 17 });
}

#[test]
fn match_at_scale_without_fine_pass_stays_on_even_grid() {
    let mut pixels = vec![0u8; 40 * 40];
    let patch = noise(10, 10, 3);
    paste(&mut pixels, 40, 15, 15, &patch, 10, 10);
    let screen = picture(40, 40, pixels);
    let template = picture(10, 10, patch);
    // a threshold so high that no coarse score is worth a fine pass
    let m = match_at_scale(&screen, &template, u32::MAX);
    assert!(m.x % 2 == 0 && m.y % 2 == 0);
    assert!(m.score < SCORE_ONE);
}

#[test]
fn find_exact_crop_at_known_position() {
    let pixels = noise(200, 160, 11);
    let patch = crop(&pixels, 200, 50, 60, 40, 40);
    let screen = picture(200, 160, pixels);
    let template = picture(40, 40, patch);
    let found = find_template(&screen, &template, 950_000).unwrap().unwrap();
    assert!((found.0 - 50).abs() <= 2 && (found.1 - 60).abs() <= 2);
    assert_eq!(found, (50, 60));
}

fn bump(width: u32, height: u32, cx: i32, cy: i32) -> Vec<u8> {
    let mut out = Vec::new();
    for y in 0..height as i32 {
        for x in 0..width as i32 {
            let far = 6 * ((x - cx).abs() + (y - cy).abs());
            out.push((20 + (200 - far).max(0)) as u8);
        }
    }
    out
}

#[test]
fn find_exact_crop_at_odd_position() {
    let pixels = bump(120, 100, 43, 53);
    let patch = crop(&pixels, 120, 33, 41, 20, 24);
    let screen = picture(120, 100, pixels);
    let template = picture(20, 24, patch);
    assert_eq!(find_template(&screen, &template, 950_000), Ok(Some((33, 41))));
}

#[test]
fn coarse_pass_can_miss_a_crop_of_noise_between_its_placements() {
    let pixels = noise(120, 100, 5);
    let patch = crop(&pixels, 120, 33, 41, 20, 24);
    let screen = picture(120, 100, pixels);
    let template = picture(20, 24, patch);
    assert_eq!(correlation(&screen, &template, 33, 41, 1), SCORE_ONE);
    assert_eq!(find_template(&screen, &template, 950_000), Ok(None));
}

#[test]
fn find_nothing_in_noise() {
    let screen = picture(120, 100, noise(120, 100, 21));
    let template = picture(40, 40, noise(40, 40, 99));
    assert_eq!(find_template(&screen, &template, 900_000), Ok(None));
}

#[test]
fn find_fails_when_template_is_too_large_at_every_scale() {
    let screen = picture(20, 20, noise(20, 20, 1));
    let template = picture(30, 30, noise(30, 30, 2));
    assert_eq!(find_template(&screen, &template, 900_000), Err(AppError::ConfigInputError));
    let wide = picture(27, 10, noise(27, 10, 3));
    assert_eq!(find_template(&screen, &wide, 900_000), Err(AppError::ConfigInputError));
    // 26 * 0.8 = 20 is no wider than the screen, though too flat to be searched for
    let flat = picture(26, 10, noise(26, 10, 3));
    assert_eq!(find_template(&screen, &flat, 900_000), Ok(None));
}

#[test]
fn find_uses_smaller_scale_when_full_size_does_not_fit() {
    let screen = picture(20, 20, noise(20, 20, 1));
    // 24 * 0.8 = 19 fits, 24 * 0.9 = 21 does not
    let template = picture(24, 24, noise(24, 24, 2));
    assert_eq!(find_template(&screen, &template, 990_000), Ok(None));
    assert!(find_template(&screen, &template, 1).unwrap().is_some());
}

#[test]
fn find_passes_over_tiny_templates() {
    let pixels = noise(50, 50, 4);
    let patch = crop(&pixels, 50, 10, 10, 8, 8);
    let screen = picture(50, 50, pixels);
    // 8 * 1.2 = 9 is still below the smallest side that is searched for
    let template = picture(8, 8, patch);
    assert_eq!(find_template(&screen, &template, 500_000), Ok(None));
    assert_eq!(find_template(&screen, &template, 0), Ok(Some((0, 0))));
}

#[test]
fn find_matches_a_scaled_template() {
    let patch = noise(30, 30, 17);
    let source = image::GrayImage::from_raw(30, 30, patch.clone()).unwrap();
    let small =
        image::imageops::resize(&source, 27, 27, image::imageops::FilterType::Lanczos3).into_raw();
    let mut pixels = vec![0u8; 80 * 70];
    paste(&mut pixels, 80, 24, 30, &small, 27, 27);
    let screen = picture(80, 70, pixels);
    let template = picture(30, 30, patch);
    assert_eq!(find_template(&screen, &template, 990_000), Ok(Some((24, 30))));
    let full = match_at_scale(&screen, &template, 990_000);
    assert!(!threshold_met(full.score, 990_000));
}

#[test]
fn click_point_is_offset_or_centre() {
    assert_eq!(resolve_click_point((50, 60), 40, 30, None), (70, 75));
    assert_eq!(resolve_click_point((50, 60), 41, 31, None), (70, 75));
    assert_eq!(resolve_click_point((50, 60), 40, 30, Some((3, -4))), (53, 56));
    assert_eq!(resolve_click_point((0, 0), 0, 0, None), (0, 0));
    assert_eq!(resolve_click_point((-5, 5), 2, 2, Some((i32::MAX, i32::MIN + 5))), (i32::MAX - 5, i32::MIN + 10));
}

#[test]
fn find_click_point_resolves_offset_or_centre() {
    let pixels = noise(200, 160, 11);
    let patch = crop(&pixels, 200, 50, 60, 40, 30);
    let screen = picture(200, 160, pixels);
    let template = picture(40, 30, patch);
    assert_eq!(find_click_point(&screen, &template, 950_000, None), Ok(Some((70, 75))));
    assert_eq!(find_click_point(&screen, &template, 950_000, Some((-5, 7))), Ok(Some((45, 67))));
    assert_eq!(
        find_click_point(&screen, &template, 950_000, Some((i32::MAX, 0))),
        Err(AppError::ConfigInputError)
    );
    let stranger = picture(40, 30, noise(40, 30, 1234));
    assert_eq!(find_click_point(&screen, &stranger, 950_000, None), Ok(None));
    let huge = picture(300, 300, vec![1; 90_000]);
    assert_eq!(find_click_point(&screen, &huge, 950_000, None), Err(AppError::ConfigInputError));
}

#[test]
fn blue_and_red_change_places() {
    let mut pixels = vec![1, 2, 3, 4, 5, 6, 7, 8];
    bgra_to_rgba(&mut pixels);
    assert_eq!(pixels, vec![3, 2, 1, 4, 7, 6, 5, 8]);
    let mut odd = vec![1, 2, 3, 4, 5, 6, 7];
    bgra_to_rgba(&mut odd);
    assert_eq!(odd, vec![3, 2, 1, 4, 5, 6, 7]);
    let mut short = vec![1, 2, 3];
    bgra_to_rgba(&mut short);
    assert_eq!(short, vec![1, 2, 3]);
    let mut empty: Vec<u8> = Vec::new();
    bgra_to_rgba(&mut empty);
    assert!(empty.is_empty());
}

#[test]
fn template_that_is_black_where_the_coarse_pass_looks_is_missed() {
    let mut patch = vec![0u8; 12 * 12];
    for y in 0..12u32 {
        for x in 0..12u32 {
            if x % 2 == 1 && y % 2 == 1 {
                patch[(y * 12 + x) as usize] = 200;
            }
        }
    }
    let mut pixels = vec![0u8; 60 * 60];
    paste(&mut pixels, 60, 10, 10, &patch, 12, 12);
    let screen = picture(60, 60, pixels);
    let template = picture(12, 12, patch);
    assert_eq!(correlation(&screen, &template, 10, 10, 1), SCORE_ONE);
    assert_eq!(correlation(&screen, &template, 10, 10, 2), 0);
    assert_eq!(match_at_scale(&screen, &template, 900_000), MatchCandidate::none());
}

#[test]
fn no_score_is_above_one() {
    let screen = picture(40, 30, noise(40, 30, 8));
    let template = picture(9, 7, noise(9, 7, 9));
    for y in 0..=23u32 {
        for x in 0..=31u32 {
            assert!(correlation(&screen, &template, x, y, 1) <= SCORE_ONE);
            assert!(correlation(&screen, &template, x, y, 2) <= SCORE_ONE);
        }
    }
}
