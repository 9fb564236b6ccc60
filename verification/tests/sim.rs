use synesthesia::fft::next_pow2;
use synesthesia::ring::{delay_taps, ring_next};
use synesthesia::sim::{
    due, grid_for_pixels, half_size, push_bounded, Image, SimStats, FIELD_REFRESH_STEPS, MAX_RIPPLES,
};

#[test]
fn half_size_halves_and_keeps_a_floor() {
    assert_eq!(half_size(240, 120), (120, 60));
    assert_eq!(half_size(40, 20), (32, 32));
}

#[test]
fn half_size_rounds_odd_sides_up() {
    assert_eq!(half_size(241, 129), (121, 65));
}

#[test]
fn the_grid_is_twice_the_picture_with_its_long_side_capped() {
    assert_eq!(grid_for_pixels(120, 60), (240, 120));
    assert_eq!(grid_for_pixels(300, 100), (384, 128));
    assert_eq!(grid_for_pixels(0, 0), (4, 4));
}

#[test]
fn a_very_flat_picture_keeps_a_three_cell_side() {
    assert_eq!(grid_for_pixels(10_000, 1), (384, 3));
    assert_eq!(grid_for_pixels(192, 192), (384, 384));
}

#[test]
fn a_scaled_side_rounds_as_the_double_product_does() {
    // 198 × (384 / 5632) is 13.5 exactly, but just below it in doubles.
    assert_eq!(grid_for_pixels(2816, 99), (384, 13));
    assert_eq!(grid_for_pixels(usize::MAX / 2, 1), (384, 3));
}

#[test]
fn half_size_follows_the_side_as_a_double() {
    assert_eq!(half_size(9_007_199_254_740_993, 9_007_199_254_740_995), (4_503_599_627_370_496, 4_503_599_627_370_498));
    assert_eq!(half_size(usize::MAX, 0), (9_223_372_036_854_775_808, 32));
}

#[test]
fn fields_are_due_at_once_and_then_every_refresh() {
    assert!(due(None, 0));
    assert!(!due(Some(10), 10 + FIELD_REFRESH_STEPS - 1));
    assert!(due(Some(10), 10 + FIELD_REFRESH_STEPS));
}

#[test]
fn stats_start_at_zero() {
    let s = SimStats::default();
    assert_eq!(s, SimStats { steps: 0, param_field_draws: 0, velocity_draws: 0 });
}

#[test]
fn an_image_is_row_major() {
    let mut img = Image::new(3, 2);
    assert_eq!(img.rgb.len(), 6);
    assert_eq!(img.at(2, 1), [0, 0, 0]);
    img.rgb[1 * 3 + 2] = [9, 8, 7];
    assert_eq!(img.at(2, 1), [9, 8, 7]);
    let empty = Image::default();
    assert_eq!((empty.w, empty.h, empty.rgb.len()), (0, 0, 0));
}

#[test]
fn transform_sizes_are_the_next_power_of_two() {
    assert_eq!(next_pow2(0), 1);
    assert_eq!(next_pow2(1), 1);
    assert_eq!(next_pow2(2), 2);
    assert_eq!(next_pow2(3), 4);
    assert_eq!(next_pow2(1000), 1024);
    assert_eq!(next_pow2(1024), 1024);
    assert_eq!(next_pow2(1025), 2048);
}

#[test]
fn at_most_four_ripples_live_and_the_oldest_goes_first() {
    let mut live: Vec<u32> = Vec::new();
    for i in 0..(MAX_RIPPLES as u32 + 2) {
        push_bounded(&mut live, i, MAX_RIPPLES);
    }
    assert_eq!(live.len(), MAX_RIPPLES);
    assert_eq!(live, vec![2, 3, 4, 5]);
}

#[test]
fn an_impulse_comes_back_after_the_delay() {
    // A ring of 64 slots, an impulse written on the first tick, read back
    // with a delay of 8 whole samples.
    let n = 64;
    let mut write = 0usize;
    let mut buf = vec![0.0f64; n];
    let mut out = Vec::new();
    for i in 0..20 {
        let (i0, _) = delay_taps(write, n, 8);
        out.push(buf[i0]);
        write = ring_next(write, n);
        buf[write] = if i == 0 { 1.0 } else { 0.0 };
    }
    assert_eq!(out[8], 1.0, "{out:?}");
    assert!(out.iter().enumerate().all(|(i, v)| i == 8 || *v == 0.0));
}

#[test]
fn a_fractional_delay_reads_the_next_slot_too() {
    assert_eq!(delay_taps(0, 64, 8), (57, 56));
    assert_eq!(delay_taps(10, 64, 1), (10, 9));
    assert_eq!(ring_next(63, 64), 0);
}
