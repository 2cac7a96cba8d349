use imgvwr::renderer::{blit_centered, check_render_fits, render, FilterMethod, RgbaImage};

fn solid(w: u32, h: u32, px: [u8; 4]) -> RgbaImage {
    let pixels: Vec<u8> = (0..w * h).flat_map(|_| px).collect();
    RgbaImage::from_raw(w, h, pixels).unwrap()
}

fn red_4x4() -> RgbaImage {
    solid(4, 4, [255, 0, 0, 255])
}

fn argb_at(buf: &[u8], dst_w: u32, x: u32, y: u32) -> (u8, u8, u8, u8) {
    let i = (y * dst_w + x) as usize * 4;
    (buf[i + 2], buf[i + 1], buf[i], buf[i + 3])
}

#[test]
fn centre_pixels_are_red_argb() {
    let src = red_4x4();
    let buf = render(&src, 4, 4, 0, (0, 0), 8, 8, FilterMethod::Nearest);
    for y in 2..6 {
        for x in 2..6 {
            let (r, g, b, a) = argb_at(&buf, 8, x, y);
            assert_eq!((r, g, b, a), (255, 0, 0, 255), "pixel ({x},{y}) not red");
        }
    }
}

#[test]
fn corners_are_black() {
    let src = red_4x4();
    let buf = render(&src, 4, 4, 0, (0, 0), 8, 8, FilterMethod::Nearest);
    for (x, y) in [(0, 0), (7, 0), (0, 7), (7, 7)] {
        let (r, g, b, a) = argb_at(&buf, 8, x, y);
        assert_eq!((r, g, b, a), (0, 0, 0, 0), "corner ({x},{y}) not black");
    }
}

#[test]
fn output_buffer_size_matches_dst() {
    let src = red_4x4();
    let buf = render(&src, 4, 4, 0, (0, 0), 16, 12, FilterMethod::Nearest);
    assert_eq!(buf.len(), 16 * 12 * 4);
}

#[test]
fn rotation_90_swaps_dimensions() {
    let src = solid(2, 4, [255, 0, 0, 255]);
    let buf = render(&src, 2, 4, 90, (0, 0), 8, 8, FilterMethod::Nearest);
    assert_eq!(buf.len(), 8 * 8 * 4);
    // A 4 × 2 image centred in 8 × 8 covers x in 2..6 and y in 3..5.
    for y in 0..8 {
        for x in 0..8 {
            let inside = (2..6).contains(&x) && (3..5).contains(&y);
            let expected = if inside { (255, 0, 0, 255) } else { (0, 0, 0, 0) };
            assert_eq!(argb_at(&buf, 8, x, y), expected, "pixel ({x},{y})");
        }
    }
}

fn gradient_2x2() -> RgbaImage {
    // Pixels (0,0)=1, (1,0)=2, (0,1)=3, (1,1)=4 in the red channel.
    let pixels = vec![1, 10, 20, 255, 2, 10, 20, 255, 3, 10, 20, 255, 4, 10, 20, 255];
    RgbaImage::from_raw(2, 2, pixels).unwrap()
}

fn reds(buf: &[u8], w: u32, h: u32) -> Vec<u8> {
    let mut out = Vec::new();
    for y in 0..h {
        for x in 0..w {
            out.push(argb_at(buf, w, x, y).0);
        }
    }
    out
}

#[test]
fn rotations_move_pixels_clockwise() {
    let src = gradient_2x2();
    let r0 = render(&src, 2, 2, 0, (0, 0), 2, 2, FilterMethod::Nearest);
    assert_eq!(reds(&r0, 2, 2), vec![1, 2, 3, 4]);
    let r90 = render(&src, 2, 2, 90, (0, 0), 2, 2, FilterMethod::Nearest);
    assert_eq!(reds(&r90, 2, 2), vec![3, 1, 4, 2]);
    let r180 = render(&src, 2, 2, 180, (0, 0), 2, 2, FilterMethod::Nearest);
    assert_eq!(reds(&r180, 2, 2), vec![4, 3, 2, 1]);
    let r270 = render(&src, 2, 2, 270, (0, 0), 2, 2, FilterMethod::Nearest);
    assert_eq!(reds(&r270, 2, 2), vec![2, 4, 1, 3]);
    let other = render(&src, 2, 2, 45, (0, 0), 2, 2, FilterMethod::Nearest);
    assert_eq!(reds(&other, 2, 2), vec![1, 2, 3, 4]);
}

#[test]
fn argb_bytes_are_blue_green_red_alpha() {
    let src = RgbaImage::from_raw(1, 1, vec![10, 20, 30, 40]).unwrap();
    let buf = render(&src, 1, 1, 0, (0, 0), 1, 1, FilterMethod::Triangle);
    assert_eq!(buf, vec![30, 20, 10, 40]);
}

#[test]
fn offset_shifts_and_clips() {
    let src = red_4x4();
    let buf = render(&src, 4, 4, 0, (3, -3), 8, 8, FilterMethod::Nearest);
    // Image spans x in 5..9 and y in -1..3: only x 5..8, y 0..3 is visible.
    for y in 0..8 {
        for x in 0..8 {
            let inside = (5..8).contains(&x) && (0..3).contains(&y);
            let expected = if inside { (255, 0, 0, 255) } else { (0, 0, 0, 0) };
            assert_eq!(argb_at(&buf, 8, x, y), expected, "pixel ({x},{y})");
        }
    }
}

#[test]
fn image_fully_off_screen_leaves_window_black() {
    let src = red_4x4();
    let buf = render(&src, 4, 4, 0, (100, 0), 8, 8, FilterMethod::Nearest);
    assert!(buf.iter().all(|b| *b == 0));
}

#[test]
fn scaling_to_double_size_with_nearest_replicates_pixels() {
    let src = solid(1, 1, [7, 8, 9, 255]);
    let buf = render(&src, 2, 2, 0, (0, 0), 2, 2, FilterMethod::Nearest);
    assert_eq!(buf, vec![9, 8, 7, 255, 9, 8, 7, 255, 9, 8, 7, 255, 9, 8, 7, 255]);
}

#[test]
fn blit_of_odd_sizes_rounds_towards_top_left() {
    let img = vec![1, 2, 3, 4];
    let buf = blit_centered(&img, 1, 1, (0, 0), 4, 3);
    // Origin is (4/2 - 1/2, 3/2 - 1/2) = (2, 1).
    let i = (1 * 4 + 2) * 4;
    assert_eq!(&buf[i..i + 4], &[3, 2, 1, 4]);
    assert_eq!(buf.iter().filter(|b| **b != 0).count(), 4);
}

#[test]
fn from_raw_rejects_wrong_length() {
    assert!(RgbaImage::from_raw(2, 2, vec![0; 15]).is_none());
    assert!(RgbaImage::from_raw(2, 2, vec![0; 16]).is_some());
}

#[test]
fn render_fits_refuses_only_oversized_buffers() {
    assert!(check_render_fits(4, 4, 4, 8, 8));
    assert!(check_render_fits(4, 4, 4, 0x8000_0000, 0));
    assert!(!check_render_fits(4, 4, 4, 0x8000_0000, 1));
    assert!(!check_render_fits(4, 4, 4, 0x10000, 0x10000));
}

#[test]
fn any_offset_renders_without_panicking() {
    let src = red_4x4();
    let buf = render(&src, 4, 4, 0, (i32::MAX, i32::MAX), 8, 8, FilterMethod::Nearest);
    assert_eq!(buf.len(), 8 * 8 * 4);
    assert!(buf.iter().all(|&b| b == 0));
    let buf = render(&src, 4, 4, 0, (i32::MIN, i32::MIN), 8, 8, FilterMethod::Nearest);
    assert!(buf.iter().all(|&b| b == 0));
    let buf = render(&src, 4, 4, 0, (0, 0), 0x8000_0000, 0, FilterMethod::Nearest);
    assert!(buf.is_empty());
}
