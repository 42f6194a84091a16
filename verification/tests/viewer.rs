use peeky::rat::Rat;
use peeky::render::BG_COLOR;
use peeky::render::SourceImage;
use peeky::render::Rgb;
use peeky::render::needs_redraw;
use peeky::render::render;
use peeky::render::resize_buffer;
use peeky::render::rgb_to_u32;
use peeky::render::xy_to_buf_index;
use peeky::viewport::ViewportState;
use peeky::viewport::center_world;
use peeky::viewport::pan;
use peeky::viewport::reset_all;
use peeky::viewport::reset_zoom;
use peeky::viewport::screen_to_world;
use peeky::viewport::world_to_screen;
use peeky::viewport::zoom_anchor_correction;
use peeky::viewport::zoom_by;

fn rat(num: i128, den: i128) -> Rat {
    Rat::new(num, den)
}

fn solid_image(w: u32, h: u32, color: Rgb) -> SourceImage {
    let mut pixels = Vec::new();
    for _ in 0..(w * h) {
        pixels.push(color);
    }
    SourceImage::new(w, h, pixels)
}

fn rat_value_eq(a: Rat, b: Rat) -> bool {
    a.num * b.den == b.num * a.den
}

#[test]
fn redraw_gating() {
    assert!(needs_redraw(0, false, false));
    assert!(!needs_redraw(1, false, false));
    assert!(!needs_redraw(17, false, false));
    assert!(needs_redraw(17, true, false));
    assert!(needs_redraw(17, false, true));
    assert!(needs_redraw(0, true, true));
}

#[test]
fn packed_color_format() {
    assert_eq!(rgb_to_u32([255, 0, 0]), 0xFFFF0000);
    assert_eq!(rgb_to_u32([0, 255, 0]), 0xFF00FF00);
    assert_eq!(rgb_to_u32([0, 0, 255]), 0xFF0000FF);
    assert_eq!(rgb_to_u32([0, 0, 0]), 0xFF000000);
    assert_eq!(rgb_to_u32([1, 2, 3]), 0xFF010203);
    assert_eq!(rgb_to_u32([255, 255, 255]), 0xFFFFFFFF);
}

#[test]
fn buffer_indexing() {
    assert_eq!(xy_to_buf_index(0, 0, 10), 0);
    assert_eq!(xy_to_buf_index(3, 2, 10), 23);
    assert_eq!(xy_to_buf_index(9, 0, 10), 9);
}

#[test]
fn resize_fills_background() {
    let mut buffer: Vec<u32> = vec![7; 3];
    resize_buffer(&mut buffer, 4, 3);
    assert_eq!(buffer.len(), 12);
    assert!(buffer.iter().all(|&p| p == BG_COLOR));
}

#[test]
fn screen_to_world_identity_mapping() {
    // camera at (2, 2), zoom 1/2, 4x4 window: the transform is the identity
    let v = ViewportState::new(rat(2, 1), rat(2, 1), rat(1, 2));
    for i in 0..4 {
        let (wx, wy) = screen_to_world(&v, rat(i, 1), rat(i, 1), 4, 4);
        assert!(rat_value_eq(wx, rat(i, 1)));
        assert!(rat_value_eq(wy, rat(i, 1)));
    }
}

#[test]
fn world_to_screen_round_trip() {
    let v = ViewportState::new(rat(3, 2), rat(-1, 3), rat(7, 5));
    let (wx, wy) = screen_to_world(&v, rat(5, 1), rat(11, 2), 640, 480);
    let (sx, sy) = world_to_screen(&v, wx, wy, 640, 480);
    assert!(rat_value_eq(sx, rat(5, 1)));
    assert!(rat_value_eq(sy, rat(11, 2)));
}

#[test]
fn pan_scales_with_zoom() {
    let mut v = ViewportState::new(rat(2, 1), rat(2, 1), rat(1, 2));
    // one pan step of 1/2 screen unit at zoom 1/2 moves the camera one world unit
    pan(&mut v, rat(1, 2), rat(0, 1));
    assert!(rat_value_eq(v.cam_x, rat(3, 1)));
    assert!(rat_value_eq(v.cam_y, rat(2, 1)));
    assert_eq!(v.zoom.num, 1);
    assert_eq!(v.zoom.den, 2);
}

#[test]
fn zoom_step_is_multiplicative() {
    let mut v = ViewportState::new(rat(0, 1), rat(0, 1), rat(1, 2));
    zoom_by(&mut v, rat(11, 10));
    assert!(rat_value_eq(v.zoom, rat(11, 20)));
    zoom_by(&mut v, rat(10, 11));
    assert!(rat_value_eq(v.zoom, rat(1, 2)));
    assert_eq!(v.cam_x.num, 0);
}

#[test]
fn zoom_anchor_keeps_center_fixed() {
    let mut v = ViewportState::new(rat(7, 3), rat(-5, 4), rat(2, 7));
    let (wbx, wby) = center_world(&v, 640, 480);
    let before_x = wbx;
    let before_y = wby;
    zoom_by(&mut v, rat(11, 10));
    zoom_anchor_correction(&mut v, 640, 480, wbx, wby);
    let (ax, ay) = center_world(&v, 640, 480);
    assert!(rat_value_eq(ax, before_x));
    assert!(rat_value_eq(ay, before_y));
}

#[test]
fn reset_zoom_keeps_camera() {
    let mut v = ViewportState::new(rat(9, 4), rat(1, 3), rat(5, 1));
    reset_zoom(&mut v);
    assert_eq!(v.zoom.num, 1);
    assert_eq!(v.zoom.den, 1000);
    assert!(rat_value_eq(v.cam_x, rat(9, 4)));
    assert!(rat_value_eq(v.cam_y, rat(1, 3)));
}

#[test]
fn reset_all_is_idempotent() {
    let mut once = ViewportState::new(rat(9, 4), rat(1, 3), rat(5, 1));
    reset_all(&mut once, 640, 480);
    let mut twice = ViewportState::new(rat(9, 4), rat(1, 3), rat(5, 1));
    reset_all(&mut twice, 640, 480);
    reset_all(&mut twice, 640, 480);
    assert_eq!(once.cam_x.num, twice.cam_x.num);
    assert_eq!(once.cam_x.den, twice.cam_x.den);
    assert_eq!(once.cam_y.num, twice.cam_y.num);
    assert_eq!(once.cam_y.den, twice.cam_y.den);
    assert_eq!(once.zoom.num, twice.zoom.num);
    assert_eq!(once.zoom.den, twice.zoom.den);
    // and the defaults are the image center and the default zoom
    assert!(rat_value_eq(once.cam_x, rat(320, 1)));
    assert!(rat_value_eq(once.cam_y, rat(240, 1)));
    assert!(rat_value_eq(once.zoom, rat(1, 1000)));
}

#[test]
fn render_solid_red_fills_window() {
    // 4x4 solid red image, 4x4 window, camera centered, zoom such that the
    // mapping is the identity: every buffer pixel is packed opaque red
    let img = solid_image(4, 4, Rgb { r: 255, g: 0, b: 0 });
    let v = ViewportState::new(rat(2, 1), rat(2, 1), rat(1, 2));
    let mut buffer: Vec<u32> = vec![0; 16];
    render(&mut buffer, 4, 4, &v, &img);
    assert_eq!(buffer, vec![0xFFFF0000u32; 16]);
}

#[test]
fn render_after_pan_shifts_one_column() {
    let img = solid_image(4, 4, Rgb { r: 255, g: 0, b: 0 });
    let mut v = ViewportState::new(rat(2, 1), rat(2, 1), rat(1, 2));
    // pan right by one world unit: dx of 1/2 screen unit at zoom 1/2
    pan(&mut v, rat(1, 2), rat(0, 1));
    let mut buffer: Vec<u32> = vec![0; 16];
    render(&mut buffer, 4, 4, &v, &img);
    let mut expected: Vec<u32> = Vec::new();
    for _row in 0..4 {
        expected.push(0xFFFF0000);
        expected.push(0xFFFF0000);
        expected.push(0xFFFF0000);
        expected.push(0x00000000);
    }
    assert_eq!(buffer, expected);
}

#[test]
fn render_all_outside_is_background() {
    // 2x2 image, camera panned far away: every mapped cell is outside [0,2)^2
    let img = solid_image(2, 2, Rgb { r: 10, g: 20, b: 30 });
    let v = ViewportState::new(rat(10, 1), rat(10, 1), rat(1, 2));
    let mut buffer: Vec<u32> = vec![123; 4];
    render(&mut buffer, 2, 2, &v, &img);
    assert_eq!(buffer, vec![BG_COLOR; 4]);
}

#[test]
fn truncation_is_toward_zero() {
    // camera at -1/4: screen column 1 maps to world -1/4, which truncates
    // toward zero to cell 0 and so still shows the image's first column;
    // column 0 maps to -9/4, truncated to -2, outside the image
    let img = solid_image(2, 2, Rgb { r: 0, g: 255, b: 0 });
    let v = ViewportState::new(rat(-1, 4), rat(-1, 4), rat(1, 2));
    let mut buffer: Vec<u32> = vec![0; 4];
    render(&mut buffer, 2, 2, &v, &img);
    assert_eq!(buffer[xy_to_buf_index(0, 0, 2)], BG_COLOR);
    assert_eq!(buffer[xy_to_buf_index(1, 0, 2)], BG_COLOR);
    assert_eq!(buffer[xy_to_buf_index(0, 1, 2)], BG_COLOR);
    assert_eq!(buffer[xy_to_buf_index(1, 1, 2)], 0xFF00FF00);
}

#[test]
fn render_distinct_pixels() {
    // 2x2 image with four distinct colors under the identity mapping
    let mut pixels = Vec::new();
    pixels.push(Rgb { r: 255, g: 0, b: 0 });
    pixels.push(Rgb { r: 0, g: 255, b: 0 });
    pixels.push(Rgb { r: 0, g: 0, b: 255 });
    pixels.push(Rgb { r: 255, g: 255, b: 255 });
    let img = SourceImage::new(2, 2, pixels);
    let v = ViewportState::new(rat(1, 1), rat(1, 1), rat(1, 1));
    let mut buffer: Vec<u32> = vec![0; 4];
    render(&mut buffer, 2, 2, &v, &img);
    assert_eq!(buffer[0], 0xFFFF0000);
    assert_eq!(buffer[1], 0xFF00FF00);
    assert_eq!(buffer[2], 0xFF0000FF);
    assert_eq!(buffer[3], 0xFFFFFFFF);
}
