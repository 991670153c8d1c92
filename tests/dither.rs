use temporal_dither::frame::{DitherError, Frame, PixelKind};
use temporal_dither::kernel::{diffusion_targets, first_min_index, gradient_sq, raw_error, Spread};
use temporal_dither::noise::{lcg_next, lcg_samples};
use temporal_dither::scan::Scan;

fn frame(
    original: Vec<u8>,
    prev: Option<Vec<u8>>,
    palette: Vec<u8>,
    mask: Option<Vec<u8>>,
    w: usize,
    h: usize,
) -> Frame {
    match Frame::new(original, prev, palette, mask, w, h) {
        Ok(f) => f,
        Err(e) => panic!("unexpected error {:?}", e),
    }
}

fn error_of(
    original: Vec<u8>,
    prev: Option<Vec<u8>>,
    palette: Vec<u8>,
    mask: Option<Vec<u8>>,
    w: usize,
    h: usize,
) -> DitherError {
    match Frame::new(original, prev, palette, mask, w, h) {
        Ok(_) => panic!("expected an error"),
        Err(e) => e,
    }
}

/// Runs a pass, picking palette colour `pick(p)` for each quantized pixel `p`.
fn run(f: &Frame, seed: u32, pick: &dyn Fn(usize) -> usize) -> (Vec<u8>, Vec<Vec<u32>>) {
    let mut scan = Scan::new(f, seed);
    let mut noise = Vec::new();
    for p in 0..f.width * f.height {
        match scan.current_kind(f) {
            PixelKind::Transparent => scan.skip_transparent(f),
            PixelKind::Frozen => {
                scan.place_frozen(f);
            }
            PixelKind::Quantize => {
                noise.push(scan.draw_noise(f));
                scan.place_quantized(f, pick(p));
            }
        }
    }
    (scan.finish(f), noise)
}

#[test]
fn dimension_overflow_is_rejected() {
    let e = error_of(vec![0; 16], None, vec![0, 0, 0], None, usize::MAX, 2);
    assert_eq!(e, DitherError::DimensionOverflow);
    assert_eq!(e.message(), "width*height overflow");
}

#[test]
fn large_dimensions_are_rejected() {
    let e = error_of(vec![0; 16], None, vec![0, 0, 0], None, 100000, 100000);
    if usize::BITS == 32 {
        assert_eq!(e, DitherError::DimensionOverflow);
    } else {
        assert_eq!(e, DitherError::OriginalTooSmall);
    }
}

#[test]
fn short_original_is_rejected() {
    let e = error_of(vec![0; 3], None, vec![0, 0, 0], None, 2, 2);
    assert_eq!(e, DitherError::OriginalTooSmall);
    assert_eq!(e.message(), "original buffer too small");
}

#[test]
fn original_whose_byte_count_overflows_is_too_small() {
    let e = error_of(vec![0; 4], None, vec![0, 0, 0], None, usize::MAX / 2, 1);
    assert_eq!(e, DitherError::OriginalTooSmall);
}

#[test]
fn short_prev_is_rejected() {
    let e = error_of(vec![0; 16], Some(vec![0; 15]), vec![0, 0, 0], None, 2, 2);
    assert_eq!(e, DitherError::PrevTooSmall);
}

#[test]
fn palette_of_seven_bytes_is_rejected() {
    let e = error_of(vec![0; 16], None, vec![0; 7], None, 2, 2);
    assert_eq!(e, DitherError::PaletteNotTriplets);
    assert_eq!(e.message(), "palette length must be multiple of 3");
}

#[test]
fn short_freeze_mask_is_rejected() {
    let e = error_of(vec![0; 16], None, vec![0, 0, 0], Some(vec![0; 3]), 2, 2);
    assert_eq!(e, DitherError::FreezeMaskTooSmall);
}

#[test]
fn checks_come_in_order() {
    let e = error_of(vec![0; 3], Some(vec![0; 1]), vec![0; 7], Some(vec![]), 2, 2);
    assert_eq!(e, DitherError::OriginalTooSmall);
    let e = error_of(vec![0; 16], Some(vec![0; 1]), vec![0; 7], Some(vec![]), 2, 2);
    assert_eq!(e, DitherError::PrevTooSmall);
}

#[test]
fn longer_buffers_are_accepted() {
    let f = frame(vec![1; 20], Some(vec![2; 17]), vec![], Some(vec![0; 5]), 2, 2);
    assert_eq!(f.width, 2);
    assert_eq!(f.height, 2);
    assert_eq!(f.original.len(), 20);
}

#[test]
fn generator_steps_exactly() {
    assert_eq!(lcg_next(42), 1083814273);
    assert_eq!(lcg_next(0), 1013904223);
    assert_eq!(lcg_next(u32::MAX), 1012239698);
}

#[test]
fn generator_samples_follow_the_chain() {
    let (s, last) = lcg_samples(42, 3);
    assert_eq!(s.len(), 3);
    assert_eq!(s[0], lcg_next(42));
    assert_eq!(s[1], lcg_next(s[0]));
    assert_eq!(s[2], lcg_next(s[1]));
    assert_eq!(last, s[2]);
    let (none, same) = lcg_samples(7, 0);
    assert!(none.is_empty());
    assert_eq!(same, 7);
}

#[test]
fn first_min_index_prefers_the_first_tie() {
    assert_eq!(first_min_index(&vec![5, 3, 9, 3]), 1);
    assert_eq!(first_min_index(&vec![4]), 0);
    assert_eq!(first_min_index(&vec![u32::MAX, u32::MAX]), 0);
    assert_eq!(first_min_index(&vec![9, 8, 7, 0]), 3);
}

#[test]
fn bottom_right_pixel_spreads_nowhere() {
    assert!(diffusion_targets(2, 1, 3, 2).is_empty());
    assert!(diffusion_targets(0, 0, 1, 1).is_empty());
}

#[test]
fn interior_pixel_spreads_floyd_steinberg() {
    let t = diffusion_targets(1, 0, 3, 2);
    assert_eq!(
        t,
        vec![
            Spread { pixel: 2, weight: 7 },
            Spread { pixel: 3, weight: 3 },
            Spread { pixel: 4, weight: 5 },
            Spread { pixel: 5, weight: 1 },
        ]
    );
    let total: u32 = t.iter().map(|s| s.weight as u32).sum();
    assert_eq!(total, 16);
}

#[test]
fn edge_pixels_drop_outside_neighbours() {
    assert_eq!(
        diffusion_targets(0, 0, 3, 2),
        vec![
            Spread { pixel: 1, weight: 7 },
            Spread { pixel: 3, weight: 5 },
            Spread { pixel: 4, weight: 1 },
        ]
    );
    assert_eq!(
        diffusion_targets(2, 0, 3, 2),
        vec![Spread { pixel: 4, weight: 3 }, Spread { pixel: 5, weight: 5 }]
    );
    assert_eq!(diffusion_targets(0, 1, 3, 2), vec![Spread { pixel: 4, weight: 7 }]);
}

#[test]
fn gradient_sums_left_and_above() {
    let original = vec![
        10, 20, 30, 255, 13, 24, 35, 255, //
        0, 0, 0, 255, 255, 255, 255, 255,
    ];
    let f = frame(original, None, vec![0, 0, 0], None, 2, 2);
    assert_eq!(gradient_sq(&f, 0, 0), 0);
    assert_eq!(gradient_sq(&f, 1, 0), 9 + 16 + 25);
    assert_eq!(gradient_sq(&f, 0, 1), 100 + 400 + 900);
    assert_eq!(gradient_sq(&f, 1, 1), 3 * 65025 + 242 * 242 + 231 * 231 + 220 * 220);
}

#[test]
fn raw_error_is_original_minus_output() {
    let f = frame(vec![200, 10, 128, 255], None, vec![0, 0, 0], None, 1, 1);
    assert_eq!(raw_error(&f, 0, (255, 0, 128)), (-55, 10, 0));
    assert_eq!(raw_error(&f, 0, (0, 255, 0)), (200, -245, 128));
}

#[test]
fn pixel_kinds_follow_alpha_and_mask() {
    let original = vec![1, 1, 1, 0, 1, 1, 1, 9, 1, 1, 1, 9];
    let f = frame(original.clone(), Some(vec![0; 12]), vec![0, 0, 0], Some(vec![1, 1, 0]), 3, 1);
    assert_eq!(f.pixel_kind(0), PixelKind::Transparent);
    assert_eq!(f.pixel_kind(1), PixelKind::Frozen);
    assert_eq!(f.pixel_kind(2), PixelKind::Quantize);
    let g = frame(original, None, vec![0, 0, 0], Some(vec![1, 1, 0]), 3, 1);
    assert_eq!(g.pixel_kind(1), PixelKind::Quantize);
}

#[test]
fn transparent_pixels_come_out_zero() {
    let f = frame(vec![200, 100, 50, 0, 7, 8, 9, 128], None, vec![1, 2, 3], None, 2, 1);
    let (out, noise) = run(&f, 42, &|_| 0);
    assert_eq!(out, vec![0, 0, 0, 0, 1, 2, 3, 128]);
    assert_eq!(noise.len(), 1);
}

#[test]
fn alpha_is_kept_frozen_or_not() {
    let original = vec![9, 9, 9, 17, 9, 9, 9, 200];
    let prev = vec![40, 41, 42, 99, 50, 51, 52, 98];
    let f = frame(original, Some(prev), vec![1, 2, 3, 4, 5, 6], Some(vec![1, 0]), 2, 1);
    let (out, _) = run(&f, 1, &|_| 1);
    assert_eq!(out[3], 17);
    assert_eq!(out[7], 200);
}

#[test]
fn frozen_pixels_copy_the_previous_frame() {
    let original = vec![9, 9, 9, 255, 9, 9, 9, 255, 9, 9, 9, 255];
    let prev = vec![40, 41, 42, 0, 50, 51, 52, 0, 60, 61, 62, 0];
    let f = frame(original, Some(prev), vec![1, 2, 3], Some(vec![0, 3, 1]), 3, 1);
    let (out, noise) = run(&f, 5, &|_| 0);
    assert_eq!(out, vec![1, 2, 3, 255, 50, 51, 52, 255, 60, 61, 62, 255]);
    assert_eq!(noise.len(), 1);
}

#[test]
fn mask_without_prev_freezes_nothing() {
    let original = vec![9, 9, 9, 255, 9, 9, 9, 255];
    let f = frame(original, None, vec![1, 2, 3, 4, 5, 6], Some(vec![1, 1]), 2, 1);
    let (out, noise) = run(&f, 5, &|p| p);
    assert_eq!(out, vec![1, 2, 3, 255, 4, 5, 6, 255]);
    assert_eq!(noise.len(), 2);
}

#[test]
fn quantized_pixels_take_palette_colours() {
    let original = vec![0, 0, 0, 255, 0, 0, 0, 255, 0, 0, 0, 255, 0, 0, 0, 255];
    let palette = vec![10, 20, 30, 40, 50, 60, 70, 80, 90];
    let f = frame(original, None, palette, None, 2, 2);
    let (out, _) = run(&f, 3, &|p| (p * 2) % 3);
    assert_eq!(
        out,
        vec![10, 20, 30, 255, 70, 80, 90, 255, 40, 50, 60, 255, 10, 20, 30, 255]
    );
}

#[test]
fn noise_is_drawn_six_at_a_time_for_quantized_pixels_only() {
    let original = vec![1, 1, 1, 255, 1, 1, 1, 0, 1, 1, 1, 255];
    let prev = vec![0; 12];
    let f = frame(original, Some(prev), vec![0, 0, 0], Some(vec![0, 0, 0]), 3, 1);
    let (_, noise) = run(&f, 42, &|_| 0);
    let (expected, _) = lcg_samples(42, 12);
    assert_eq!(noise.len(), 2);
    assert_eq!(noise[0], expected[0..6].to_vec());
    assert_eq!(noise[1], expected[6..12].to_vec());
}

#[test]
fn frozen_pixels_draw_no_noise() {
    let original = vec![1, 1, 1, 255, 1, 1, 1, 255];
    let f = frame(original, Some(vec![0; 8]), vec![0, 0, 0], Some(vec![1, 0]), 2, 1);
    let (_, noise) = run(&f, 42, &|_| 0);
    let (expected, _) = lcg_samples(42, 6);
    assert_eq!(noise, vec![expected]);
}

#[test]
fn same_inputs_give_identical_passes() {
    let original: Vec<u8> = (0..64u32).map(|i| (i * 37 % 256) as u8).collect();
    let mk = || frame(original.clone(), Some(vec![3; 64]), vec![0, 0, 0, 255, 255, 255], Some(vec![0, 1, 0, 0, 1, 0, 0, 0, 0, 0, 0, 1, 0, 0, 0, 0]), 4, 4);
    let pick = |p: usize| (p * 7 + 1) % 2;
    let a = run(&mk(), 42, &pick);
    let b = run(&mk(), 42, &pick);
    assert_eq!(a, b);
    let c = run(&mk(), 43, &pick);
    assert_eq!(a.0, c.0);
    assert_ne!(a.1, c.1);
}

#[test]
fn white_and_black_pick_their_nearest_entries() {
    // With no jitter and no diffusion each pixel is matched as it is; white and black
    // lie at squared distance 0 from themselves and 3 * 255^2 from each other.
    let original = vec![255, 255, 255, 255, 0, 0, 0, 255];
    let palette = vec![255, 255, 255, 0, 0, 0];
    let f = frame(original, None, palette, None, 2, 1);
    let far: u32 = 3 * 255 * 255;
    let mut scan = Scan::new(&f, 42);
    assert_eq!(scan.current_kind(&f), PixelKind::Quantize);
    scan.draw_noise(&f);
    assert_eq!(scan.place_nearest(&f, &vec![0, far]), (255, 255, 255));
    scan.draw_noise(&f);
    assert_eq!(scan.place_nearest(&f, &vec![far, 0]), (0, 0, 0));
    assert_eq!(scan.finish(&f), vec![255, 255, 255, 255, 0, 0, 0, 255]);
}

#[test]
fn nearest_ties_go_to_the_first_palette_entry() {
    let f = frame(vec![5, 5, 5, 255], None, vec![1, 1, 1, 2, 2, 2, 3, 3, 3], None, 1, 1);
    let mut scan = Scan::new(&f, 0);
    scan.draw_noise(&f);
    assert_eq!(scan.place_nearest(&f, &vec![9, 4, 4]), (2, 2, 2));
    assert_eq!(scan.finish(&f), vec![2, 2, 2, 255]);
}
