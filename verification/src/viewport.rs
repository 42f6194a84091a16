//! The viewport model: a camera position in image (world) space plus a zoom
//! factor, with conversions between screen-space and world-space coordinates
//! and the pan / zoom / reset operations.
//!
//! The documented transform is, for a screen point `(x, y)` in a `sw x sh`
//! window (`ar = sh / sw`):
//!
//! ```text
//! world_x = cam_x + (x - sw/2) / (sw/2) / zoom
//! world_y = cam_y + (y - sh/2) / (sh/2) / zoom * ar
//! ```
//!
//! All arithmetic is exact over rationals, so the laws of the transform
//! (round-trip with its inverse, anchor invariance under zoom) hold exactly.

use vstd::prelude::*;

use crate::rat::Rat;
use crate::rat::lemma_mul_bound;
use crate::rat::lemma_mul_pos;
use crate::rat::lemma_q_eq_trans;
use crate::rat::q_add;
use crate::rat::q_div;
use crate::rat::q_eq;
use crate::rat::q_mul;
use crate::rat::q_of;
use crate::rat::q_sub;

verus! {

/// Magnitude bound on camera and zoom components accepted by the transform
/// operations, chosen so that every intermediate product fits in an `i128`.
pub const VIEW_BOUND: i128 = 274877906944;

/// Magnitude bound on the components of a screen-space point.
pub const SCREEN_PT_BOUND: i128 = 32768;

/// Magnitude bound on the components of a world-space point handed to the
/// inverse transform.
pub const WORLD_BOUND: i128 = 1073741824;

/// Largest accepted window dimension, in pixels.
pub const MAX_DIM: u32 = 32768;

/// Default zoom factor, `1/1000`.
pub const DEFAULT_ZOOM_NUM: i128 = 1;
pub const DEFAULT_ZOOM_DEN: i128 = 1000;

/// Fixed pan step, `1/10` of a screen unit per key press.
pub const PAN_STEP_NUM: i128 = 1;
pub const PAN_STEP_DEN: i128 = 10;

/// Fixed multiplicative zoom step, `11/10` per key press.
pub const ZOOM_STEP_NUM: i128 = 11;
pub const ZOOM_STEP_DEN: i128 = 10;

/// Camera position (world-space point under the screen center) and zoom
/// factor; `zoom` is always positive.
#[derive(Clone, Copy, Debug)]
pub struct ViewportState {
    pub cam_x: Rat,
    pub cam_y: Rat,
    pub zoom: Rat,
}

/// World point of a screen point `p`, horizontal axis:
/// `cam_x + (p - sw/2) / (sw/2) / zoom`, over (numerator, denominator) pairs.
pub open spec fn world_x_q(c: (int, int), z: (int, int), p: (int, int), sw: int) -> (int, int) {
    q_add(c, q_div(q_div(q_sub(p, (sw, 2)), (sw, 2)), z))
}

/// World point of a screen point `p`, vertical axis:
/// `cam_y + (p - sh/2) / (sh/2) / zoom * (sh/sw)`.
pub open spec fn world_y_q(c: (int, int), z: (int, int), p: (int, int), sw: int, sh: int) -> (
    int,
    int,
) {
    q_add(c, q_mul(q_div(q_div(q_sub(p, (sh, 2)), (sh, 2)), z), (sh, sw)))
}

/// Inverse transform, horizontal axis: `sw/2 + (w - cam_x) * zoom * (sw/2)`.
pub open spec fn screen_x_q(c: (int, int), z: (int, int), w: (int, int), sw: int) -> (int, int) {
    q_add((sw, 2), q_mul(q_mul(q_sub(w, c), z), (sw, 2)))
}

/// Inverse transform, vertical axis: `sh/2 + (w - cam_y) * zoom * (sw/2)`.
pub open spec fn screen_y_q(c: (int, int), z: (int, int), w: (int, int), sw: int, sh: int) -> (
    int,
    int,
) {
    q_add((sh, 2), q_mul(q_mul(q_sub(w, c), z), (sw, 2)))
}

impl ViewportState {
    /// Components well formed and the zoom factor positive.
    pub open spec fn wf(self) -> bool {
        self.cam_x.wf() && self.cam_y.wf() && self.zoom.wf() && self.zoom.num > 0
    }

    /// All components at most `b` in magnitude.
    pub open spec fn bounded(self, b: int) -> bool {
        self.cam_x.bounded(b) && self.cam_y.bounded(b) && self.zoom.bounded(b)
    }

    /// The startup state for an image of the given size: camera at the image
    /// center, zoom at its default.
    pub open spec fn initial_spec(image_w: u32, image_h: u32) -> ViewportState {
        ViewportState {
            cam_x: Rat { num: image_w as i128, den: 2 },
            cam_y: Rat { num: image_h as i128, den: 2 },
            zoom: Rat { num: DEFAULT_ZOOM_NUM, den: DEFAULT_ZOOM_DEN },
        }
    }

    /// Build the startup state for an image of the given size.
    pub fn initial(image_w: u32, image_h: u32) -> (v: ViewportState)
        ensures
            v == Self::initial_spec(image_w, image_h),
            v.wf(),
    {
        ViewportState {
            cam_x: Rat { num: image_w as i128, den: 2 },
            cam_y: Rat { num: image_h as i128, den: 2 },
            zoom: Rat { num: DEFAULT_ZOOM_NUM, den: DEFAULT_ZOOM_DEN },
        }
    }

    /// Build a state from explicit camera and zoom values.
    pub fn new(cam_x: Rat, cam_y: Rat, zoom: Rat) -> (v: ViewportState)
        requires
            cam_x.wf(),
            cam_y.wf(),
            zoom.wf(),
            zoom.num > 0,
        ensures
            v == (ViewportState { cam_x, cam_y, zoom }),
            v.wf(),
    {
        ViewportState { cam_x, cam_y, zoom }
    }
}

/// Applying `reset_all` to any state yields the startup state.
pub open spec fn reset_all_spec(v: ViewportState, image_w: u32, image_h: u32) -> ViewportState {
    ViewportState::initial_spec(image_w, image_h)
}

/// Map a screen-space point to the world-space (image) point under it.
pub fn screen_to_world(v: &ViewportState, sx: Rat, sy: Rat, sw: u32, sh: u32) -> (r: (Rat, Rat))
    requires
        v.wf(),
        v.bounded(VIEW_BOUND as int),
        sx.wf(),
        sx.bounded(SCREEN_PT_BOUND as int),
        sy.wf(),
        sy.bounded(SCREEN_PT_BOUND as int),
        1 <= sw <= MAX_DIM,
        1 <= sh <= MAX_DIM,
    ensures
        q_of(r.0) == world_x_q(q_of(v.cam_x), q_of(v.zoom), q_of(sx), sw as int),
        q_of(r.1) == world_y_q(q_of(v.cam_y), q_of(v.zoom), q_of(sy), sw as int, sh as int),
        r.0.wf(),
        r.1.wf(),
{
    let swi: i128 = sw as i128;
    let shi: i128 = sh as i128;
    proof {
        lemma_mul_bound(swi as int, sx.den as int, 32768, 32768);
        lemma_mul_bound(shi as int, sy.den as int, 32768, 32768);
    }
    // horizontal axis: ((sx - sw/2) / (sw/2)) / zoom, then + cam_x
    let ax_num: i128 = 2 * sx.num - swi * sx.den;
    let ax_den: i128 = sx.den * 2;
    let bx_num: i128 = ax_num * 2;
    proof {
        lemma_mul_bound(ax_den as int, swi as int, 65536, 32768);
    }
    let bx_den: i128 = ax_den * swi;
    proof {
        lemma_mul_bound(bx_num as int, v.zoom.den as int, 4294967296, VIEW_BOUND as int);
        lemma_mul_bound(bx_den as int, v.zoom.num as int, 2147483648, VIEW_BOUND as int);
    }
    let cx_num: i128 = bx_num * v.zoom.den;
    let cx_den: i128 = bx_den * v.zoom.num;
    proof {
        lemma_mul_bound(
            v.cam_x.num as int,
            cx_den as int,
            VIEW_BOUND as int,
            590295810358705651712,
        );
        lemma_mul_bound(
            cx_num as int,
            v.cam_x.den as int,
            1180591620717411303424,
            VIEW_BOUND as int,
        );
        lemma_mul_bound(
            v.cam_x.den as int,
            cx_den as int,
            VIEW_BOUND as int,
            590295810358705651712,
        );
        lemma_mul_pos(ax_den as int, swi as int);
        lemma_mul_pos(bx_den as int, v.zoom.num as int);
        lemma_mul_pos(v.cam_x.den as int, cx_den as int);
    }
    let wx_num: i128 = v.cam_x.num * cx_den + cx_num * v.cam_x.den;
    let wx_den: i128 = v.cam_x.den * cx_den;
    // vertical axis: ((sy - sh/2) / (sh/2)) / zoom * (sh/sw), then + cam_y
    let ay_num: i128 = 2 * sy.num - shi * sy.den;
    let ay_den: i128 = sy.den * 2;
    let by_num: i128 = ay_num * 2;
    proof {
        lemma_mul_bound(ay_den as int, shi as int, 65536, 32768);
    }
    let by_den: i128 = ay_den * shi;
    proof {
        lemma_mul_bound(by_num as int, v.zoom.den as int, 4294967296, VIEW_BOUND as int);
        lemma_mul_bound(by_den as int, v.zoom.num as int, 2147483648, VIEW_BOUND as int);
    }
    let cy_num: i128 = by_num * v.zoom.den;
    let cy_den: i128 = by_den * v.zoom.num;
    proof {
        lemma_mul_bound(cy_num as int, shi as int, 1180591620717411303424, 32768);
        lemma_mul_bound(cy_den as int, swi as int, 590295810358705651712, 32768);
    }
    let my_num: i128 = cy_num * shi;
    let my_den: i128 = cy_den * swi;
    proof {
        lemma_mul_bound(
            v.cam_y.num as int,
            my_den as int,
            VIEW_BOUND as int,
            19342813113834066795298816,
        );
        lemma_mul_bound(
            my_num as int,
            v.cam_y.den as int,
            38685626227668133590597632,
            VIEW_BOUND as int,
        );
        lemma_mul_bound(
            v.cam_y.den as int,
            my_den as int,
            VIEW_BOUND as int,
            19342813113834066795298816,
        );
        lemma_mul_pos(ay_den as int, shi as int);
        lemma_mul_pos(by_den as int, v.zoom.num as int);
        lemma_mul_pos(cy_den as int, swi as int);
        lemma_mul_pos(v.cam_y.den as int, my_den as int);
    }
    let wy_num: i128 = v.cam_y.num * my_den + my_num * v.cam_y.den;
    let wy_den: i128 = v.cam_y.den * my_den;
    (Rat { num: wx_num, den: wx_den }, Rat { num: wy_num, den: wy_den })
}

/// Map a world-space point to the screen-space point it appears at: the
/// inverse of `screen_to_world`.
pub fn world_to_screen(v: &ViewportState, wx: Rat, wy: Rat, sw: u32, sh: u32) -> (r: (Rat, Rat))
    requires
        v.wf(),
        v.bounded(VIEW_BOUND as int),
        wx.wf(),
        wx.bounded(WORLD_BOUND as int),
        wy.wf(),
        wy.bounded(WORLD_BOUND as int),
        1 <= sw <= MAX_DIM,
        1 <= sh <= MAX_DIM,
    ensures
        q_of(r.0) == screen_x_q(q_of(v.cam_x), q_of(v.zoom), q_of(wx), sw as int),
        q_of(r.1) == screen_y_q(q_of(v.cam_y), q_of(v.zoom), q_of(wy), sw as int, sh as int),
        r.0.wf(),
        r.1.wf(),
{
    let swi: i128 = sw as i128;
    let shi: i128 = sh as i128;
    proof {
        lemma_mul_bound(wx.num as int, v.cam_x.den as int, WORLD_BOUND as int, VIEW_BOUND as int);
        lemma_mul_bound(v.cam_x.num as int, wx.den as int, VIEW_BOUND as int, WORLD_BOUND as int);
        lemma_mul_bound(wx.den as int, v.cam_x.den as int, WORLD_BOUND as int, VIEW_BOUND as int);
        lemma_mul_bound(wy.num as int, v.cam_y.den as int, WORLD_BOUND as int, VIEW_BOUND as int);
        lemma_mul_bound(v.cam_y.num as int, wy.den as int, VIEW_BOUND as int, WORLD_BOUND as int);
        lemma_mul_bound(wy.den as int, v.cam_y.den as int, WORLD_BOUND as int, VIEW_BOUND as int);
    }
    // horizontal axis: (wx - cam_x) * zoom * (sw/2), then + sw/2
    let dx_num: i128 = wx.num * v.cam_x.den - v.cam_x.num * wx.den;
    let dx_den: i128 = wx.den * v.cam_x.den;
    proof {
        lemma_mul_bound(dx_num as int, v.zoom.num as int, 590295810358705651712, VIEW_BOUND as int);
        lemma_mul_bound(dx_den as int, v.zoom.den as int, 295147905179352825856, VIEW_BOUND as int);
    }
    let ex_num: i128 = dx_num * v.zoom.num;
    let ex_den: i128 = dx_den * v.zoom.den;
    proof {
        lemma_mul_bound(ex_num as int, swi as int, 162259276829213363391578010288128, 32768);
        lemma_mul_bound(
            swi as int,
            (ex_den * 2) as int,
            32768,
            162259276829213363391578010288128,
        );
        lemma_mul_pos(wx.den as int, v.cam_x.den as int);
        lemma_mul_pos(dx_den as int, v.zoom.den as int);
    }
    let fx_num: i128 = ex_num * swi;
    let fx_den: i128 = ex_den * 2;
    let sx_num: i128 = swi * fx_den + fx_num * 2;
    let sx_den: i128 = 2 * fx_den;
    // vertical axis: (wy - cam_y) * zoom * (sw/2), then + sh/2
    let dy_num: i128 = wy.num * v.cam_y.den - v.cam_y.num * wy.den;
    let dy_den: i128 = wy.den * v.cam_y.den;
    proof {
        lemma_mul_bound(dy_num as int, v.zoom.num as int, 590295810358705651712, VIEW_BOUND as int);
        lemma_mul_bound(dy_den as int, v.zoom.den as int, 295147905179352825856, VIEW_BOUND as int);
    }
    let ey_num: i128 = dy_num * v.zoom.num;
    let ey_den: i128 = dy_den * v.zoom.den;
    proof {
        lemma_mul_bound(ey_num as int, swi as int, 162259276829213363391578010288128, 32768);
        lemma_mul_bound(
            shi as int,
            (ey_den * 2) as int,
            32768,
            162259276829213363391578010288128,
        );
        lemma_mul_pos(wy.den as int, v.cam_y.den as int);
        lemma_mul_pos(dy_den as int, v.zoom.den as int);
    }
    let fy_num: i128 = ey_num * swi;
    let fy_den: i128 = ey_den * 2;
    let sy_num: i128 = shi * fy_den + fy_num * 2;
    let sy_den: i128 = 2 * fy_den;
    (Rat { num: sx_num, den: sx_den }, Rat { num: sy_num, den: sy_den })
}

/// Move the camera by `(dx, dy)` screen units: `cam += d / zoom`, so the
/// apparent pan speed on screen is independent of the zoom level.
pub fn pan(v: &mut ViewportState, dx: Rat, dy: Rat)
    requires
        old(v).wf(),
        old(v).bounded(VIEW_BOUND as int),
        dx.wf(),
        dx.bounded(VIEW_BOUND as int),
        dy.wf(),
        dy.bounded(VIEW_BOUND as int),
    ensures
        q_of(final(v).cam_x) == q_add(q_of(old(v).cam_x), q_div(q_of(dx), q_of(old(v).zoom))),
        q_of(final(v).cam_y) == q_add(q_of(old(v).cam_y), q_div(q_of(dy), q_of(old(v).zoom))),
        final(v).zoom == old(v).zoom,
        final(v).wf(),
{
    proof {
        lemma_mul_bound(dx.num as int, v.zoom.den as int, VIEW_BOUND as int, VIEW_BOUND as int);
        lemma_mul_bound(dx.den as int, v.zoom.num as int, VIEW_BOUND as int, VIEW_BOUND as int);
        lemma_mul_bound(dy.num as int, v.zoom.den as int, VIEW_BOUND as int, VIEW_BOUND as int);
        lemma_mul_bound(dy.den as int, v.zoom.num as int, VIEW_BOUND as int, VIEW_BOUND as int);
        lemma_mul_pos(dx.den as int, v.zoom.num as int);
        lemma_mul_pos(dy.den as int, v.zoom.num as int);
    }
    let tx_num: i128 = dx.num * v.zoom.den;
    let tx_den: i128 = dx.den * v.zoom.num;
    let ty_num: i128 = dy.num * v.zoom.den;
    let ty_den: i128 = dy.den * v.zoom.num;
    proof {
        lemma_mul_bound(
            v.cam_x.num as int,
            tx_den as int,
            VIEW_BOUND as int,
            75557863725914323419136,
        );
        lemma_mul_bound(
            tx_num as int,
            v.cam_x.den as int,
            75557863725914323419136,
            VIEW_BOUND as int,
        );
        lemma_mul_bound(
            v.cam_x.den as int,
            tx_den as int,
            VIEW_BOUND as int,
            75557863725914323419136,
        );
        lemma_mul_bound(
            v.cam_y.num as int,
            ty_den as int,
            VIEW_BOUND as int,
            75557863725914323419136,
        );
        lemma_mul_bound(
            ty_num as int,
            v.cam_y.den as int,
            75557863725914323419136,
            VIEW_BOUND as int,
        );
        lemma_mul_bound(
            v.cam_y.den as int,
            ty_den as int,
            VIEW_BOUND as int,
            75557863725914323419136,
        );
        lemma_mul_pos(v.cam_x.den as int, tx_den as int);
        lemma_mul_pos(v.cam_y.den as int, ty_den as int);
    }
    let nx_num: i128 = v.cam_x.num * tx_den + tx_num * v.cam_x.den;
    let nx_den: i128 = v.cam_x.den * tx_den;
    let ny_num: i128 = v.cam_y.num * ty_den + ty_num * v.cam_y.den;
    let ny_den: i128 = v.cam_y.den * ty_den;
    v.cam_x = Rat { num: nx_num, den: nx_den };
    v.cam_y = Rat { num: ny_num, den: ny_den };
}

/// Multiply the zoom factor by `factor`; the camera is unchanged. To keep the
/// world point under the screen center fixed, follow with
/// `zoom_anchor_correction`.
pub fn zoom_by(v: &mut ViewportState, factor: Rat)
    requires
        old(v).wf(),
        old(v).bounded(VIEW_BOUND as int),
        factor.wf(),
        factor.num > 0,
        factor.bounded(VIEW_BOUND as int),
    ensures
        q_of(final(v).zoom) == q_mul(q_of(old(v).zoom), q_of(factor)),
        final(v).cam_x == old(v).cam_x,
        final(v).cam_y == old(v).cam_y,
        final(v).wf(),
{
    proof {
        lemma_mul_bound(v.zoom.num as int, factor.num as int, VIEW_BOUND as int, VIEW_BOUND as int);
        lemma_mul_bound(v.zoom.den as int, factor.den as int, VIEW_BOUND as int, VIEW_BOUND as int);
        lemma_mul_pos(v.zoom.num as int, factor.num as int);
        lemma_mul_pos(v.zoom.den as int, factor.den as int);
    }
    let z_num: i128 = v.zoom.num * factor.num;
    let z_den: i128 = v.zoom.den * factor.den;
    v.zoom = Rat { num: z_num, den: z_den };
}

/// The world point under the screen center. By the transform's own formula it
/// is exactly the camera point, and it is returned in that reduced form.
pub fn center_world(v: &ViewportState, sw: u32, sh: u32) -> (r: (Rat, Rat))
    requires
        v.wf(),
        1 <= sw <= MAX_DIM,
        1 <= sh <= MAX_DIM,
    ensures
        r.0 == v.cam_x,
        r.1 == v.cam_y,
        q_eq(q_of(r.0), world_x_q(q_of(v.cam_x), q_of(v.zoom), (sw as int, 2), sw as int)),
        q_eq(
            q_of(r.1),
            world_y_q(q_of(v.cam_y), q_of(v.zoom), (sh as int, 2), sw as int, sh as int),
        ),
{
    proof {
        lemma_center_world(q_of(v.cam_x), q_of(v.zoom), sw as int, sh as int);
        lemma_center_world(q_of(v.cam_y), q_of(v.zoom), sw as int, sh as int);
    }
    (v.cam_x, v.cam_y)
}

/// After a zoom change, shift the camera by the difference between the world
/// point that was under the screen center before the change (`world_before`)
/// and the one under it now, so that point stays under the center.
pub fn zoom_anchor_correction(
    v: &mut ViewportState,
    sw: u32,
    sh: u32,
    world_before_x: Rat,
    world_before_y: Rat,
)
    requires
        old(v).wf(),
        old(v).bounded(VIEW_BOUND as int),
        world_before_x.wf(),
        world_before_x.bounded(VIEW_BOUND as int),
        world_before_y.wf(),
        world_before_y.bounded(VIEW_BOUND as int),
        1 <= sw <= MAX_DIM,
        1 <= sh <= MAX_DIM,
    ensures
        q_of(final(v).cam_x) == q_add(
            q_of(old(v).cam_x),
            q_sub(q_of(world_before_x), q_of(old(v).cam_x)),
        ),
        q_of(final(v).cam_y) == q_add(
            q_of(old(v).cam_y),
            q_sub(q_of(world_before_y), q_of(old(v).cam_y)),
        ),
        q_eq(
            q_of(final(v).cam_x),
            q_add(
                q_of(old(v).cam_x),
                q_sub(
                    q_of(world_before_x),
                    world_x_q(q_of(old(v).cam_x), q_of(old(v).zoom), (sw as int, 2), sw as int),
                ),
            ),
        ),
        q_eq(
            q_of(final(v).cam_y),
            q_add(
                q_of(old(v).cam_y),
                q_sub(
                    q_of(world_before_y),
                    world_y_q(
                        q_of(old(v).cam_y),
                        q_of(old(v).zoom),
                        (sh as int, 2),
                        sw as int,
                        sh as int,
                    ),
                ),
            ),
        ),
        final(v).zoom == old(v).zoom,
        final(v).wf(),
{
    proof {
        lemma_mul_bound(
            world_before_x.num as int,
            v.cam_x.den as int,
            VIEW_BOUND as int,
            VIEW_BOUND as int,
        );
        lemma_mul_bound(
            v.cam_x.num as int,
            world_before_x.den as int,
            VIEW_BOUND as int,
            VIEW_BOUND as int,
        );
        lemma_mul_bound(
            world_before_x.den as int,
            v.cam_x.den as int,
            VIEW_BOUND as int,
            VIEW_BOUND as int,
        );
        lemma_mul_bound(
            world_before_y.num as int,
            v.cam_y.den as int,
            VIEW_BOUND as int,
            VIEW_BOUND as int,
        );
        lemma_mul_bound(
            v.cam_y.num as int,
            world_before_y.den as int,
            VIEW_BOUND as int,
            VIEW_BOUND as int,
        );
        lemma_mul_bound(
            world_before_y.den as int,
            v.cam_y.den as int,
            VIEW_BOUND as int,
            VIEW_BOUND as int,
        );
        lemma_mul_pos(world_before_x.den as int, v.cam_x.den as int);
        lemma_mul_pos(world_before_y.den as int, v.cam_y.den as int);
    }
    let tx_num: i128 = world_before_x.num * v.cam_x.den - v.cam_x.num * world_before_x.den;
    let tx_den: i128 = world_before_x.den * v.cam_x.den;
    let ty_num: i128 = world_before_y.num * v.cam_y.den - v.cam_y.num * world_before_y.den;
    let ty_den: i128 = world_before_y.den * v.cam_y.den;
    proof {
        lemma_mul_bound(
            v.cam_x.num as int,
            tx_den as int,
            VIEW_BOUND as int,
            75557863725914323419136,
        );
        lemma_mul_bound(
            tx_num as int,
            v.cam_x.den as int,
            151115727451828646838272,
            VIEW_BOUND as int,
        );
        lemma_mul_bound(
            v.cam_x.den as int,
            tx_den as int,
            VIEW_BOUND as int,
            75557863725914323419136,
        );
        lemma_mul_bound(
            v.cam_y.num as int,
            ty_den as int,
            VIEW_BOUND as int,
            75557863725914323419136,
        );
        lemma_mul_bound(
            ty_num as int,
            v.cam_y.den as int,
            151115727451828646838272,
            VIEW_BOUND as int,
        );
        lemma_mul_bound(
            v.cam_y.den as int,
            ty_den as int,
            VIEW_BOUND as int,
            75557863725914323419136,
        );
        lemma_mul_pos(v.cam_x.den as int, tx_den as int);
        lemma_mul_pos(v.cam_y.den as int, ty_den as int);
        lemma_anchor_center(
            q_of(v.cam_x),
            q_of(v.zoom),
            q_of(world_before_x),
            sw as int,
            sh as int,
        );
        lemma_anchor_center(
            q_of(v.cam_y),
            q_of(v.zoom),
            q_of(world_before_y),
            sw as int,
            sh as int,
        );
    }
    let nx_num: i128 = v.cam_x.num * tx_den + tx_num * v.cam_x.den;
    let nx_den: i128 = v.cam_x.den * tx_den;
    let ny_num: i128 = v.cam_y.num * ty_den + ty_num * v.cam_y.den;
    let ny_den: i128 = v.cam_y.den * ty_den;
    v.cam_x = Rat { num: nx_num, den: nx_den };
    v.cam_y = Rat { num: ny_num, den: ny_den };
}

/// Reset the zoom factor to its default; the camera is unchanged.
pub fn reset_zoom(v: &mut ViewportState)
    ensures
        final(v).zoom == (Rat { num: DEFAULT_ZOOM_NUM, den: DEFAULT_ZOOM_DEN }),
        final(v).cam_x == old(v).cam_x,
        final(v).cam_y == old(v).cam_y,
{
    v.zoom = Rat { num: DEFAULT_ZOOM_NUM, den: DEFAULT_ZOOM_DEN };
}

/// Reset camera and zoom to their startup defaults for an image of the given
/// size. Deliberately applies no anchor correction: a full reset discards
/// anchoring.
pub fn reset_all(v: &mut ViewportState, image_w: u32, image_h: u32)
    ensures
        *final(v) == reset_all_spec(*old(v), image_w, image_h),
        final(v).wf(),
{
    v.cam_x = Rat { num: image_w as i128, den: 2 };
    v.cam_y = Rat { num: image_h as i128, den: 2 };
    v.zoom = Rat { num: DEFAULT_ZOOM_NUM, den: DEFAULT_ZOOM_DEN };
}

/// Resetting twice in a row yields exactly the state of resetting once.
pub proof fn lemma_reset_all_idempotent(v: ViewportState, image_w: u32, image_h: u32)
    ensures
        reset_all_spec(reset_all_spec(v, image_w, image_h), image_w, image_h) == reset_all_spec(
            v,
            image_w,
            image_h,
        ),
{
}

/// A rational equals any common scaling of its numerator and denominator.
pub proof fn lemma_q_eq_scaled(c: (int, int), k: int)
    ensures
        q_eq(c, (c.0 * k, c.1 * k)),
{
    assert(c.0 * (c.1 * k) == (c.0 * k) * c.1) by (nonlinear_arith);
}

/// The world point under the screen center, componentwise: it is the camera
/// pair with numerator and denominator both scaled by the same factor.
pub proof fn lemma_center_world_shape(c: (int, int), z: (int, int), sw: int, sh: int)
    ensures
        world_x_q(c, z, (sw, 2), sw) == (c.0 * ((4 * sw) * z.0), c.1 * ((4 * sw) * z.0)),
        world_y_q(c, z, (sh, 2), sw, sh) == (
            c.0 * (((4 * sh) * z.0) * sw),
            c.1 * (((4 * sh) * z.0) * sw),
        ),
{
    let wx = world_x_q(c, z, (sw, 2), sw);
    assert(wx.0 == c.0 * ((4 * sw) * z.0) && wx.1 == c.1 * ((4 * sw) * z.0)) by (nonlinear_arith)
        requires
            wx.0 == c.0 * (((2 * 2) * sw) * z.0) + (((sw * 2 - sw * 2) * 2) * z.1) * c.1,
            wx.1 == c.1 * (((2 * 2) * sw) * z.0),
    ;
    let wy = world_y_q(c, z, (sh, 2), sw, sh);
    assert(wy.0 == c.0 * (((4 * sh) * z.0) * sw) && wy.1 == c.1 * (((4 * sh) * z.0) * sw))
        by (nonlinear_arith)
        requires
            wy.0 == c.0 * ((((2 * 2) * sh) * z.0) * sw) + ((((sh * 2 - sh * 2) * 2) * z.1) * sh)
                * c.1,
            wy.1 == c.1 * ((((2 * 2) * sh) * z.0) * sw),
    ;
}

/// At the screen center the transform's offset term vanishes, so the world
/// point under the center is the camera point itself (as a rational value).
pub proof fn lemma_center_world(c: (int, int), z: (int, int), sw: int, sh: int)
    ensures
        q_eq(c, world_x_q(c, z, (sw, 2), sw)),
        q_eq(c, world_y_q(c, z, (sh, 2), sw, sh)),
{
    lemma_center_world_shape(c, z, sw, sh);
    lemma_q_eq_scaled(c, (4 * sw) * z.0);
    lemma_q_eq_scaled(c, ((4 * sh) * z.0) * sw);
}

/// Adding `world_before - camera` to the camera is the same rational value as
/// adding `world_before - world_after` when `world_after` is the camera
/// scaled by any common factor `k` (as the center world point always is).
pub proof fn lemma_anchor_scaled(c: (int, int), wb: (int, int), k: int)
    ensures
        q_eq(q_add(c, q_sub(wb, c)), q_add(c, q_sub(wb, (c.0 * k, c.1 * k)))),
{
    let lhs = q_add(c, q_sub(wb, c));
    let rhs = q_add(c, q_sub(wb, (c.0 * k, c.1 * k)));
    let a = wb.0 * (c.1 * c.1);
    let b = (c.1 * c.1) * wb.1;
    assert(lhs.0 == a && lhs.1 == b) by (nonlinear_arith)
        requires
            lhs.0 == c.0 * (wb.1 * c.1) + (wb.0 * c.1 - c.0 * wb.1) * c.1,
            lhs.1 == c.1 * (wb.1 * c.1),
            a == wb.0 * (c.1 * c.1),
            b == (c.1 * c.1) * wb.1,
    ;
    let u = c.1 * k;
    assert(rhs.0 == c.0 * (wb.1 * u) + (wb.0 * u - (c.0 * k) * wb.1) * c.1);
    assert(c.0 * (wb.1 * u) == ((c.0 * k) * wb.1) * c.1) by (nonlinear_arith)
        requires
            u == c.1 * k,
    ;
    assert((wb.0 * u - (c.0 * k) * wb.1) * c.1 == (wb.0 * u) * c.1 - ((c.0 * k) * wb.1) * c.1)
        by (nonlinear_arith);
    assert((wb.0 * u) * c.1 == a * k) by (nonlinear_arith)
        requires
            u == c.1 * k,
            a == wb.0 * (c.1 * c.1),
    ;
    assert(rhs.0 == a * k);
    assert(rhs.1 == b * k) by (nonlinear_arith)
        requires
            rhs.1 == c.1 * (wb.1 * (c.1 * k)),
            b == (c.1 * c.1) * wb.1,
    ;
    assert(lhs.0 * rhs.1 == rhs.0 * lhs.1) by (nonlinear_arith)
        requires
            lhs.0 == a,
            lhs.1 == b,
            rhs.0 == a * k,
            rhs.1 == b * k,
    ;
}

/// The anchor correction restated against the transform itself: subtracting
/// the world point now under the screen center is, as a rational value, the
/// same as subtracting the camera point.
pub proof fn lemma_anchor_center(c: (int, int), z: (int, int), wb: (int, int), sw: int, sh: int)
    ensures
        q_eq(
            q_add(c, q_sub(wb, c)),
            q_add(c, q_sub(wb, world_x_q(c, z, (sw, 2), sw))),
        ),
        q_eq(
            q_add(c, q_sub(wb, c)),
            q_add(c, q_sub(wb, world_y_q(c, z, (sh, 2), sw, sh))),
        ),
{
    lemma_center_world_shape(c, z, sw, sh);
    lemma_anchor_scaled(c, wb, (4 * sw) * z.0);
    lemma_anchor_scaled(c, wb, ((4 * sh) * z.0) * sw);
}

/// Round-trip: mapping a screen point to world space and back with the
/// inverse transform reproduces the point, exactly, on both axes.
pub proof fn lemma_round_trip(
    cx: (int, int),
    cy: (int, int),
    z: (int, int),
    px: (int, int),
    py: (int, int),
    sw: int,
    sh: int,
)
    ensures
        q_eq(screen_x_q(cx, z, world_x_q(cx, z, px, sw), sw), px),
        q_eq(screen_y_q(cy, z, world_y_q(cy, z, py, sw, sh), sw, sh), py),
{
    // horizontal axis
    let wx = world_x_q(cx, z, px, sw);
    let rx = screen_x_q(cx, z, wx, sw);
    let kx = ((px.1 * 2) * sw) * z.0;
    let ex = ((px.0 * 2 - sw * px.1) * 2) * z.1;
    assert(wx.0 == cx.0 * kx + ex * cx.1 && wx.1 == cx.1 * kx);
    let ddx = wx.0 * cx.1 - cx.0 * wx.1;
    assert(ddx == ex * (cx.1 * cx.1)) by (nonlinear_arith)
        requires
            ddx == wx.0 * cx.1 - cx.0 * wx.1,
            wx.0 == cx.0 * kx + ex * cx.1,
            wx.1 == cx.1 * kx,
    ;
    let sx = kx * z.1 + ex * z.0;
    assert(sx == ((2 * px.0) * (2 * z.0)) * z.1) by (nonlinear_arith)
        requires
            sx == kx * z.1 + ex * z.0,
            kx == ((px.1 * 2) * sw) * z.0,
            ex == ((px.0 * 2 - sw * px.1) * 2) * z.1,
    ;
    let aax = (cx.1 * cx.1) * (2 * sw);
    assert(sw * (((wx.1 * cx.1) * z.1) * 2) == aax * (kx * z.1)) by (nonlinear_arith)
        requires
            wx.1 == cx.1 * kx,
            aax == (cx.1 * cx.1) * (2 * sw),
    ;
    assert(((ddx * z.0) * sw) * 2 == aax * (ex * z.0)) by (nonlinear_arith)
        requires
            ddx == ex * (cx.1 * cx.1),
            aax == (cx.1 * cx.1) * (2 * sw),
    ;
    let p1 = kx * z.1;
    let q1 = ex * z.0;
    assert(aax * p1 + aax * q1 == aax * (p1 + q1)) by (nonlinear_arith);
    assert(rx.0 == sw * (((wx.1 * cx.1) * z.1) * 2) + ((ddx * z.0) * sw) * 2);
    assert(rx.0 == aax * sx);
    assert(rx.1 == ((cx.1 * cx.1) * 4) * (kx * z.1)) by (nonlinear_arith)
        requires
            rx.1 == 2 * (((wx.1 * cx.1) * z.1) * 2),
            wx.1 == cx.1 * kx,
    ;
    assert((kx * z.1) * (2 * px.0) == sx * (px.1 * sw)) by (nonlinear_arith)
        requires
            kx == ((px.1 * 2) * sw) * z.0,
            sx == ((2 * px.0) * (2 * z.0)) * z.1,
    ;
    let bbx = cx.1 * cx.1;
    assert(rx.0 * px.1 == px.0 * rx.1) by (nonlinear_arith)
        requires
            rx.0 == aax * sx,
            rx.1 == (bbx * 4) * (kx * z.1),
            aax == bbx * (2 * sw),
            (kx * z.1) * (2 * px.0) == sx * (px.1 * sw),
    ;
    // vertical axis
    let wy = world_y_q(cy, z, py, sw, sh);
    let ry = screen_y_q(cy, z, wy, sw, sh);
    let ky = (((py.1 * 2) * sh) * z.0) * sw;
    let ey = (((py.0 * 2 - sh * py.1) * 2) * z.1) * sh;
    assert(wy.0 == cy.0 * ky + ey * cy.1 && wy.1 == cy.1 * ky);
    let ddy = wy.0 * cy.1 - cy.0 * wy.1;
    assert(ddy == ey * (cy.1 * cy.1)) by (nonlinear_arith)
        requires
            ddy == wy.0 * cy.1 - cy.0 * wy.1,
            wy.0 == cy.0 * ky + ey * cy.1,
            wy.1 == cy.1 * ky,
    ;
    let w0 = z.0 * z.1;
    let sy = sh * (ky * z.1) + sw * (ey * z.0);
    assert(sh * (ky * z.1) == ((py.1 * (sh * sh)) * (2 * sw)) * w0) by (nonlinear_arith)
        requires
            ky == (((py.1 * 2) * sh) * z.0) * sw,
            w0 == z.0 * z.1,
    ;
    assert(sw * (ey * z.0) == (((py.0 * 2 - sh * py.1) * sh) * (2 * sw)) * w0) by (nonlinear_arith)
        requires
            ey == (((py.0 * 2 - sh * py.1) * 2) * z.1) * sh,
            w0 == z.0 * z.1,
    ;
    assert(((py.1 * (sh * sh)) * (2 * sw)) * w0 + (((py.0 * 2 - sh * py.1) * sh) * (2 * sw)) * w0
        == ((4 * py.0) * (sh * sw)) * w0) by (nonlinear_arith);
    assert(sy == ((4 * py.0) * (sh * sw)) * w0);
    let aay = (cy.1 * cy.1) * 2;
    assert(sh * (((wy.1 * cy.1) * z.1) * 2) == aay * (sh * (ky * z.1))) by (nonlinear_arith)
        requires
            wy.1 == cy.1 * ky,
            aay == (cy.1 * cy.1) * 2,
    ;
    assert(((ddy * z.0) * sw) * 2 == aay * (sw * (ey * z.0))) by (nonlinear_arith)
        requires
            ddy == ey * (cy.1 * cy.1),
            aay == (cy.1 * cy.1) * 2,
    ;
    let p2 = sh * (ky * z.1);
    let q2 = sw * (ey * z.0);
    assert(aay * p2 + aay * q2 == aay * (p2 + q2)) by (nonlinear_arith);
    assert(ry.0 == sh * (((wy.1 * cy.1) * z.1) * 2) + ((ddy * z.0) * sw) * 2);
    assert(ry.0 == aay * sy);
    assert(ry.1 == ((cy.1 * cy.1) * 4) * (ky * z.1)) by (nonlinear_arith)
        requires
            ry.1 == 2 * (((wy.1 * cy.1) * z.1) * 2),
            wy.1 == cy.1 * ky,
    ;
    let hw = sh * sw;
    assert(ky * z.1 == ((py.1 * hw) * w0) * 2) by (nonlinear_arith)
        requires
            ky == (((py.1 * 2) * sh) * z.0) * sw,
            hw == sh * sw,
            w0 == z.0 * z.1,
    ;
    let bby = cy.1 * cy.1;
    assert(sy == ((4 * py.0) * hw) * w0);
    assert(ry.0 * py.1 == py.0 * ry.1) by (nonlinear_arith)
        requires
            ry.0 == aay * sy,
            ry.1 == (bby * 4) * (ky * z.1),
            aay == bby * 2,
            sy == ((4 * py.0) * hw) * w0,
            ky * z.1 == ((py.1 * hw) * w0) * 2,
    ;
}

/// Zoom-anchor invariance: after any zoom change followed by the anchor
/// correction, the world point under the screen center is unchanged.
///
/// `c`/`z` are the camera and zoom before, `z2` the zoom after the change,
/// `wb` the world point under the center before (any pair equal to it), and
/// `c2` the corrected camera (any pair equal to the corrected value).
pub proof fn lemma_zoom_anchor_invariance(
    c: (int, int),
    z: (int, int),
    z2: (int, int),
    wb: (int, int),
    c2: (int, int),
    sw: int,
)
    requires
        c.1 > 0,
        z.1 > 0,
        z.0 > 0,
        z2.1 > 0,
        z2.0 > 0,
        wb.1 > 0,
        c2.1 > 0,
        sw >= 1,
        q_eq(wb, world_x_q(c, z, (sw, 2), sw)),
        q_eq(c2, q_add(c, q_sub(wb, world_x_q(c, z2, (sw, 2), sw)))),
    ensures
        q_eq(world_x_q(c2, z2, (sw, 2), sw), world_x_q(c, z, (sw, 2), sw)),
{
    let k = (4 * sw) * z.0;
    let k2 = (4 * sw) * z2.0;
    lemma_center_world_shape(c, z, sw, sw);
    lemma_center_world_shape(c, z2, sw, sw);
    lemma_center_world_shape(c2, z2, sw, sw);
    assert(k > 0) by (nonlinear_arith)
        requires
            sw >= 1,
            z.0 > 0,
            k == (4 * sw) * z.0,
    ;
    assert(k2 > 0) by (nonlinear_arith)
        requires
            sw >= 1,
            z2.0 > 0,
            k2 == (4 * sw) * z2.0,
    ;
    // `wb` equals the camera as a rational value.
    lemma_q_eq_scaled(c, k);
    crate::rat::lemma_mul_pos(c.1, k);
    lemma_q_eq_trans((c.0, c.1), (c.0 * k, c.1 * k), wb);
    // the corrected camera equals the old camera as a rational value
    let target = q_add(c, q_sub(wb, (c.0 * k2, c.1 * k2)));
    assert(q_eq(target, c)) by (nonlinear_arith)
        requires
            target.0 == c.0 * (wb.1 * (c.1 * k2)) + (wb.0 * (c.1 * k2) - (c.0 * k2) * wb.1) * c.1,
            target.1 == c.1 * (wb.1 * (c.1 * k2)),
            c.0 * wb.1 == wb.0 * c.1,
    ;
    assert(target.1 != 0) by (nonlinear_arith)
        requires
            target.1 == c.1 * (wb.1 * (c.1 * k2)),
            c.1 > 0,
            wb.1 > 0,
            k2 > 0,
    ;
    lemma_q_eq_trans(c2, target, c);
    // and scaling `c2` by `k2` (the new center world point) changes nothing
    lemma_q_eq_scaled(c2, k2);
    assert(q_eq((c2.0 * k2, c2.1 * k2), c2));
    lemma_q_eq_trans((c2.0 * k2, c2.1 * k2), c2, c);
    lemma_q_eq_scaled(c, k);
    lemma_q_eq_trans((c2.0 * k2, c2.1 * k2), c, (c.0 * k, c.1 * k));
}

} // verus!
