use pathtracer::draw_pixels_to_canvas;
use pathtracer::util::{colour_scale_sqrt, coords_to_idx, isqrt, tone_map};

#[test]
fn coords_to_idx_is_four_times_the_row_major_index() {
    assert_eq!(coords_to_idx(0, 0, 10), 0);
    assert_eq!(coords_to_idx(3, 0, 10), 12);
    assert_eq!(coords_to_idx(3, 2, 10), 92);
    assert_eq!(coords_to_idx(0, 1, 1), 4);
    assert_eq!(coords_to_idx(511, 511, 512), 4 * (512 * 512 - 1));
}

#[test]
fn coords_to_idx_of_a_wide_surface() {
    assert_eq!(coords_to_idx(65535, 65535, 65536), 4 * (65536usize * 65536 - 1));
}

#[test]
fn isqrt_rounds_down() {
    assert_eq!(isqrt(0), 0);
    assert_eq!(isqrt(1), 1);
    assert_eq!(isqrt(2), 1);
    assert_eq!(isqrt(3), 1);
    assert_eq!(isqrt(4), 2);
    assert_eq!(isqrt(255), 15);
    assert_eq!(isqrt(256), 16);
    assert_eq!(isqrt(30600), 174);
    assert_eq!(isqrt(65024), 254);
    assert_eq!(isqrt(65025), 255);
    assert_eq!(isqrt(u32::MAX), 65535);
}

#[test]
fn isqrt_brackets_every_small_number() {
    let mut n: u32 = 0;
    while n < 70000 {
        let r: u64 = isqrt(n) as u64;
        assert!(r * r <= n as u64);
        assert!((n as u64) < (r + 1) * (r + 1));
        n += 1;
    }
}

#[test]
fn tone_map_keeps_black_and_full_intensity() {
    assert_eq!(tone_map(0, 1), 0);
    assert_eq!(tone_map(255, 1), 255);
    assert_eq!(tone_map(0, 7), 0);
}

#[test]
fn tone_map_saturates_above_full_intensity() {
    assert_eq!(tone_map(256, 1), 255);
    assert_eq!(tone_map(12750, 1), 255);
    assert_eq!(tone_map(u32::MAX, 1), 255);
}

#[test]
fn tone_map_takes_the_root_of_the_mean() {
    assert_eq!(tone_map(1, 1), 15);
    assert_eq!(tone_map(64, 1), 127);
    assert_eq!(tone_map(120, 1), 174);
    assert_eq!(tone_map(254, 1), 254);
    assert_eq!(tone_map(240, 2), 174);
    assert_eq!(tone_map(1200, 10), 174);
}

#[test]
fn tone_map_divides_before_the_curve_and_rounds_down() {
    assert_eq!(tone_map(9, 10), 0);
    assert_eq!(tone_map(19, 10), 15);
    assert_eq!(tone_map(2549, 10), 254);
    assert_eq!(tone_map(2550, 10), 255);
}

#[test]
fn tone_map_agrees_with_the_floating_point_curve() {
    let mut mean: u32 = 0;
    while mean <= 600 {
        let expected: u8 = ((mean as f32 / 255.0).sqrt() * 255.0) as u8;
        assert_eq!(tone_map(mean, 1), expected, "mean {}", mean);
        mean += 1;
    }
}

#[test]
fn colour_scale_sqrt_maps_each_channel() {
    assert_eq!(colour_scale_sqrt(&[0, 255, 120], 1), [0, 255, 174]);
    assert_eq!(colour_scale_sqrt(&[64, 1000, 1], 1), [127, 255, 15]);
    assert_eq!(colour_scale_sqrt(&[240, 510, 3], 2), [174, 255, 15]);
}

#[test]
fn draw_pixels_to_canvas_resolves_colour_and_writes_opaque_alpha() {
    let pixels: Vec<u32> = vec![0, 255, 120, 0, 240, 510, 3, 77];
    let mut canvas: Vec<u8> = vec![9; 8];
    draw_pixels_to_canvas(&pixels, &mut canvas, 1);
    assert_eq!(canvas, vec![0, 255, 174, 255, 247, 255, 27, 255]);
}

#[test]
fn draw_pixels_to_canvas_divides_by_the_scale() {
    let pixels: Vec<u32> = vec![480, 1020, 6, 0];
    let mut canvas: Vec<u8> = vec![0; 4];
    draw_pixels_to_canvas(&pixels, &mut canvas, 2);
    assert_eq!(canvas, vec![247, 255, 27, 255]);
}

#[test]
fn draw_pixels_to_canvas_of_nothing_writes_nothing() {
    let pixels: Vec<u32> = Vec::new();
    let mut canvas: Vec<u8> = Vec::new();
    draw_pixels_to_canvas(&pixels, &mut canvas, 3);
    assert!(canvas.is_empty());
}
