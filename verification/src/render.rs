//! The frame renderer: the per-tick redraw decision, the screen-sized pixel
//! buffer, and rasterization of the visible region of the source image
//! through the inverse viewport transform.
//!
//! Every screen pixel is mapped to world space, truncated toward zero to a
//! source-pixel cell (the nearest-neighbor sampling policy), and painted with
//! that pixel's packed color when the cell lies inside the image bounds;
//! otherwise it keeps the background color.

use vstd::pervasive::VecAdditionalExecFns;
use vstd::prelude::*;

use crate::rat::Rat;
use crate::rat::q_of;
use crate::rat::rat_trunc;
use crate::rat::rat_trunc_exec;
use crate::viewport::MAX_DIM;
use crate::viewport::VIEW_BOUND;
use crate::viewport::ViewportState;
use crate::viewport::screen_to_world;
use crate::viewport::world_x_q;
use crate::viewport::world_y_q;

verus! {

/// The background color, opaque black in the packed format's color bytes.
pub const BG_COLOR: u32 = 0x000000;

/// One source pixel: an opaque RGB triplet with 8-bit channels.
#[derive(Clone, Copy, PartialEq, Eq, Structural, Debug)]
pub struct Rgb {
    pub r: u8,
    pub g: u8,
    pub b: u8,
}

/// The packed 32-bit form of an RGB pixel: `0xFF_rr_gg_bb`, the alpha byte
/// fixed at `0xFF` and red, green, blue in descending byte significance.
pub open spec fn pack_rgb(p: Rgb) -> u32 {
    (0xFF000000 + p.r * 0x10000 + p.g * 0x100 + p.b) as u32
}

/// Pack an RGB triplet `[r, g, b]` into the buffer's 32-bit pixel format.
pub fn rgb_to_u32(rgb: [u8; 3]) -> (c: u32)
    ensures
        c == pack_rgb(Rgb { r: rgb[0], g: rgb[1], b: rgb[2] }),
{
    let r = rgb[0];
    let g = rgb[1];
    let b = rgb[2];
    0xFF000000u32 + (r as u32) * 0x10000 + (g as u32) * 0x100 + (b as u32)
}

/// Row-major index of screen cell `(x, y)` in a buffer of row width `w`.
pub fn xy_to_buf_index(x: u32, y: u32, w: usize) -> (i: usize)
    requires
        (y as int) * (w as int) + (x as int) <= usize::MAX,
    ensures
        i == (y as int) * (w as int) + (x as int),
{
    proof {
        assert((w as int) * (y as int) == (y as int) * (w as int)) by (nonlinear_arith);
    }
    (x as usize) + w * (y as usize)
}

/// The redraw gate: a frame is rasterized only on the very first tick, after
/// a window resize, or after a camera or zoom change.
pub fn needs_redraw(frame_index: u64, size_changed: bool, camera_changed: bool) -> (r: bool)
    ensures
        r == (frame_index == 0 || size_changed || camera_changed),
{
    frame_index == 0 || size_changed || camera_changed
}

/// The decoded source image: an immutable `width x height` grid of RGB
/// pixels, row-major.
pub struct SourceImage {
    pub width: u32,
    pub height: u32,
    pub pixels: Vec<Rgb>,
}

impl SourceImage {
    /// The pixel grid holds exactly `width * height` entries.
    pub open spec fn wf(self) -> bool {
        self.pixels@.len() == self.width * self.height
    }

    /// The pixel at column `x`, row `y`.
    pub open spec fn pixel_at(self, x: int, y: int) -> Rgb {
        self.pixels@[y * self.width + x]
    }

    /// Build an image from its dimensions and row-major pixel grid.
    pub fn new(width: u32, height: u32, pixels: Vec<Rgb>) -> (img: SourceImage)
        requires
            pixels@.len() == width * height,
        ensures
            img.width == width,
            img.height == height,
            img.pixels@ == pixels@,
            img.wf(),
    {
        SourceImage { width, height, pixels }
    }

    /// Read the pixel at column `x`, row `y`.
    pub fn get_pixel(&self, x: u32, y: u32) -> (p: Rgb)
        requires
            self.wf(),
            x < self.width,
            y < self.height,
        ensures
            p == self.pixel_at(x as int, y as int),
    {
        let n: usize = self.pixels.len();
        proof {
            assert((self.width as int) * (y as int) + (x as int) < (self.width as int) * (
            self.height as int)) by (nonlinear_arith)
                requires
                    x < self.width,
                    y < self.height,
            ;
            assert((self.width as int) * (self.height as int) == (self.width as int) * (
            self.height as int) as int) by (nonlinear_arith);
            assert((y as int) * (self.width as int) == (self.width as int) * (y as int))
                by (nonlinear_arith);
        }
        let i: usize = (x as usize) + (self.width as usize) * (y as usize);
        self.pixels[i]
    }
}

/// Reallocate the frame buffer for a `new_w x new_h` window, every pixel set
/// to the background color; prior contents are discarded.
pub fn resize_buffer(buffer: &mut Vec<u32>, new_w: u32, new_h: u32)
    requires
        (new_w as int) * (new_h as int) <= usize::MAX,
    ensures
        final(buffer)@.len() == (new_w as int) * (new_h as int),
        forall|i: int|
            0 <= i < final(buffer)@.len() ==> final(buffer)@[i] == BG_COLOR,
{
    let total: usize = (new_w as usize) * (new_h as usize);
    buffer.clear();
    let mut i: usize = 0;
    while i < total
        invariant
            i <= total,
            buffer@.len() == i,
            forall|j: int| 0 <= j < i ==> buffer@[j] == BG_COLOR,
        decreases total - i,
    {
        buffer.push(BG_COLOR);
        i = i + 1;
    }
}

/// The world-space column a screen column `x` maps to, truncated toward zero.
pub open spec fn world_cell_x(v: ViewportState, x: int, sw: int) -> int {
    let w = world_x_q(q_of(v.cam_x), q_of(v.zoom), (x, 1), sw);
    rat_trunc(w.0, w.1)
}

/// The world-space row a screen row `y` maps to, truncated toward zero.
pub open spec fn world_cell_y(v: ViewportState, y: int, sw: int, sh: int) -> int {
    let w = world_y_q(q_of(v.cam_y), q_of(v.zoom), (y, 1), sw, sh);
    rat_trunc(w.0, w.1)
}

/// What `render` leaves at screen cell `(x, y)`: the source pixel under it,
/// packed, when its mapped world cell is inside the image; else background.
pub open spec fn sample(v: ViewportState, img: SourceImage, x: int, y: int, sw: int, sh: int) -> u32 {
    let ix = world_cell_x(v, x, sw);
    let iy = world_cell_y(v, y, sw, sh);
    if 0 <= ix < img.width && 0 <= iy < img.height {
        pack_rgb(img.pixel_at(ix, iy))
    } else {
        BG_COLOR
    }
}

/// A screen pixel whose mapped world cell lies outside the image bounds is
/// left with the background color.
pub proof fn lemma_outside_is_background(
    v: ViewportState,
    img: SourceImage,
    x: int,
    y: int,
    sw: int,
    sh: int,
)
    requires
        !(0 <= world_cell_x(v, x, sw) < img.width) || !(0 <= world_cell_y(v, y, sw, sh)
            < img.height),
    ensures
        sample(v, img, x, y, sw, sh) == BG_COLOR,
{
}

/// Rasterize the visible region of `img` into `buffer` (sized for a
/// `sw x sh` window): every screen cell gets its `sample` value.
pub fn render(buffer: &mut Vec<u32>, sw: u32, sh: u32, v: &ViewportState, img: &SourceImage)
    requires
        old(buffer)@.len() == (sw as int) * (sh as int),
        v.wf(),
        v.bounded(VIEW_BOUND as int),
        img.wf(),
        sw <= MAX_DIM,
        sh <= MAX_DIM,
    ensures
        final(buffer)@.len() == (sw as int) * (sh as int),
        forall|x: int, y: int|
            0 <= x < sw && 0 <= y < sh ==> final(buffer)@[y * (sw as int) + x] == sample(
                *v,
                *img,
                x,
                y,
                sw as int,
                sh as int,
            ),
{
    let ghost swi: int = sw as int;
    let ghost shi: int = sh as int;
    // start from an all-background frame
    let total: usize = buffer.len();
    let mut i: usize = 0;
    while i < total
        invariant
            i <= total,
            buffer@.len() == total,
            forall|j: int| 0 <= j < i ==> buffer@[j] == BG_COLOR,
        decreases total - i,
    {
        buffer.set(i, BG_COLOR);
        i = i + 1;
    }
    // paint every screen cell whose world cell falls inside the image
    let mut y: u32 = 0;
    while y < sh
        invariant
            0 <= y <= sh,
            sw <= MAX_DIM,
            sh <= MAX_DIM,
            buffer@.len() == swi * shi,
            swi * shi <= usize::MAX,
            swi == sw as int,
            shi == sh as int,
            v.wf(),
            v.bounded(VIEW_BOUND as int),
            img.wf(),
            forall|xx: int, yy: int|
                0 <= xx < swi && 0 <= yy < y ==> buffer@[yy * swi + xx] == sample(
                    *v,
                    *img,
                    xx,
                    yy,
                    swi,
                    shi,
                ),
            forall|k: int| (y as int) * swi <= k < swi * shi ==> buffer@[k] == BG_COLOR,
        decreases sh - y,
    {
        let mut x: u32 = 0;
        while x < sw
            invariant
                0 <= x <= sw,
                0 <= y < sh,
                sw <= MAX_DIM,
                sh <= MAX_DIM,
                buffer@.len() == swi * shi,
                swi * shi <= usize::MAX,
                swi == sw as int,
                shi == sh as int,
                v.wf(),
                v.bounded(VIEW_BOUND as int),
                img.wf(),
                forall|xx: int, yy: int|
                    0 <= xx < swi && 0 <= yy < y ==> buffer@[yy * swi + xx] == sample(
                        *v,
                        *img,
                        xx,
                        yy,
                        swi,
                        shi,
                    ),
                forall|xx: int|
                    0 <= xx < x ==> buffer@[(y as int) * swi + xx] == sample(
                        *v,
                        *img,
                        xx,
                        y as int,
                        swi,
                        shi,
                    ),
                forall|k: int|
                    (y as int) * swi + (x as int) <= k < swi * shi ==> buffer@[k] == BG_COLOR,
            decreases sw - x,
        {
            proof {
                assert((y as int) * swi + (x as int) < swi * shi) by (nonlinear_arith)
                    requires
                        0 <= x < swi,
                        0 <= y < shi,
                ;
            }
            let (wx, wy) = screen_to_world(
                v,
                Rat { num: x as i128, den: 1 },
                Rat { num: y as i128, den: 1 },
                sw,
                sh,
            );
            let ix = rat_trunc_exec(wx.num, wx.den);
            let iy = rat_trunc_exec(wy.num, wy.den);
            let idx = xy_to_buf_index(x, y, sw as usize);
            if 0 <= ix && ix < img.width as i128 && 0 <= iy && iy < img.height as i128 {
                let p = img.get_pixel(ix as u32, iy as u32);
                let c = rgb_to_u32([p.r, p.g, p.b]);
                buffer.set(idx, c);
                assert(buffer@[(y as int) * swi + (x as int)] == sample(
                    *v,
                    *img,
                    x as int,
                    y as int,
                    swi,
                    shi,
                ));
                proof {
                    assert forall|xx: int, yy: int|
                        0 <= xx < swi && 0 <= yy < (y as int) implies buffer@[yy * swi + xx]
                        == sample(*v, *img, xx, yy, swi, shi) by {
                        assert(yy * swi + xx < (y as int) * swi) by (nonlinear_arith)
                            requires
                                0 <= xx < swi,
                                0 <= yy < (y as int),
                        ;
                    };
                    assert forall|k: int|
                        (y as int) * swi + (x as int) + 1 <= k < swi * shi implies buffer@[k]
                        == BG_COLOR by {
                    };
                }
            } else {
                assert(buffer@[(y as int) * swi + (x as int)] == sample(
                    *v,
                    *img,
                    x as int,
                    y as int,
                    swi,
                    shi,
                ));
            }
            x = x + 1;
        }
        proof {
            assert(((y + 1) as int) * swi == (y as int) * swi + swi) by (nonlinear_arith);
        }
        y = y + 1;
    }
}

} // verus!
