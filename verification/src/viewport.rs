//! Viewport transform from graph space to screen space.
//!
//! The transform law is `screen = graph * scale + offset`. Scale is held in
//! thousandths (1000 = 1:1) and offsets in thousandths of a pixel, so every
//! update is exact integer arithmetic and the same inputs always give the
//! same transform. Division is Euclidean throughout, so each division loses
//! strictly less than one thousandth of a pixel.

use vstd::prelude::*;
use vstd::arithmetic::div_mod::{lemma_fundamental_div_mod, lemma_fundamental_div_mod_converse};

verus! {

/// 1.0 in scale thousandths.
pub const SCALE_ONE: i64 = 1000;

/// Lower scale bound for zooming, 0.2.
pub const ZOOM_MIN: i64 = 200;

/// Upper scale bound for zooming, 3.0.
pub const ZOOM_MAX: i64 = 3000;

/// Lower scale bound for fit-to-view, 0.5.
pub const FIT_MIN: i64 = 500;

/// Upper scale bound for fit-to-view, 2.0.
pub const FIT_MAX: i64 = 2000;

/// Zoom-in factor in thousandths, 1.1.
pub const ZOOM_IN_FACTOR: i64 = 1100;

/// Zoom-out factor in thousandths, 0.9.
pub const ZOOM_OUT_FACTOR: i64 = 900;

/// Padding in pixels kept around the graph by fit-to-view.
pub const FIT_PADDING: i64 = 60;

/// Magnitude bound on offsets, in thousandths of a pixel. A machine limit:
/// operations that would carry an offset beyond it are skipped by the
/// controller long before the arithmetic below could overflow.
pub const OFFSET_LIMIT: i64 = 100_000_000_000_000_000;

/// Bound on canvas dimensions and pointer coordinates, in pixels.
pub const CANVAS_LIMIT: i64 = 1_000_000;

/// Bound on graph-space coordinates coming from the layout, in pixels.
pub const GRAPH_LIMIT: i64 = 100_000_000;

/// Offset magnitude up to which a zoom step is accepted; above it the
/// controller skips the step so the update cannot overflow.
pub const ZOOM_GUARD: i64 = 100_000_000_000_000;

/// Scale/offset transform from graph coordinates to screen coordinates.
#[derive(Clone, Copy, Debug, PartialEq, Eq, Structural)]
pub struct Viewport {
    /// Scale in thousandths; 1000 means one graph unit per pixel.
    pub scale: i64,
    /// Screen x of graph x = 0, in thousandths of a pixel.
    pub offset_x: i64,
    /// Screen y of graph y = 0, in thousandths of a pixel.
    pub offset_y: i64,
}

/// Viewport invariant: scale within the zoom bounds, offsets within the
/// machine limit.
pub open spec fn vp_inv(v: Viewport) -> bool {
    &&& ZOOM_MIN <= v.scale <= ZOOM_MAX
    &&& -OFFSET_LIMIT <= v.offset_x <= OFFSET_LIMIT
    &&& -OFFSET_LIMIT <= v.offset_y <= OFFSET_LIMIT
}

/// Clamp `x` into `[lo, hi]`.
pub open spec fn spec_clamp(x: int, lo: int, hi: int) -> int {
    if x < lo {
        lo
    } else if x > hi {
        hi
    } else {
        x
    }
}

/// The scale a zoom step produces: the old scale times 1.1 (in) or 0.9
/// (out), clamped into the zoom bounds.
pub open spec fn spec_zoom_scale(scale: int, zoom_in: bool) -> int {
    let factor = if zoom_in { ZOOM_IN_FACTOR as int } else { ZOOM_OUT_FACTOR as int };
    spec_clamp(scale * factor / (SCALE_ONE as int), ZOOM_MIN as int, ZOOM_MAX as int)
}

/// The offset a zoom step produces, keeping the graph point under the pivot
/// in place: `offset' = pivot - (pivot - offset) * scale' / scale`.
pub open spec fn spec_zoom_offset(offset: int, pivot_milli: int, old_scale: int, new_scale: int) -> int {
    pivot_milli - (pivot_milli - offset) * new_scale / old_scale
}

/// The transform a pan step produces.
pub open spec fn spec_pan(v: Viewport, dx: int, dy: int) -> Viewport {
    Viewport {
        scale: v.scale,
        offset_x: (v.offset_x + dx * SCALE_ONE) as i64,
        offset_y: (v.offset_y + dy * SCALE_ONE) as i64,
    }
}

/// The transform a zoom step toward pivot `(px, py)` (in pixels) produces.
pub open spec fn spec_zoom(v: Viewport, zoom_in: bool, px: int, py: int) -> Viewport {
    let s = spec_zoom_scale(v.scale as int, zoom_in);
    Viewport {
        scale: s as i64,
        offset_x: spec_zoom_offset(v.offset_x as int, px * SCALE_ONE, v.scale as int, s) as i64,
        offset_y: spec_zoom_offset(v.offset_y as int, py * SCALE_ONE, v.scale as int, s) as i64,
    }
}

/// The transform fit-to-view produces: untouched on a degenerate box, else
/// scaled to fit with padding and centered.
pub open spec fn spec_fit(
    v: Viewport,
    cw: int,
    ch: int,
    min_x: int,
    min_y: int,
    max_x: int,
    max_y: int,
) -> Viewport {
    let gw = max_x - min_x;
    let gh = max_y - min_y;
    if gw <= 0 || gh <= 0 {
        v
    } else {
        let sx = (cw - 2 * FIT_PADDING) * SCALE_ONE / gw;
        let sy = (ch - 2 * FIT_PADDING) * SCALE_ONE / gh;
        let s = spec_clamp(if sx <= sy { sx } else { sy }, FIT_MIN as int, FIT_MAX as int);
        Viewport {
            scale: s as i64,
            offset_x: ((cw * SCALE_ONE - (min_x + max_x) * s) / 2) as i64,
            offset_y: ((ch * SCALE_ONE - (min_y + max_y) * s) / 2) as i64,
        }
    }
}

/// The transform centering the rectangle `(x, y, w, h)` in the canvas.
pub open spec fn spec_center(v: Viewport, x: int, y: int, w: int, h: int, cw: int, ch: int) -> Viewport {
    Viewport {
        scale: v.scale,
        offset_x: ((cw * SCALE_ONE - (2 * x + w) * v.scale) / 2) as i64,
        offset_y: ((ch * SCALE_ONE - (2 * y + h) * v.scale) / 2) as i64,
    }
}

/// Euclidean quotient of `x` by a positive `d` lies between 0 and `x`.
proof fn lemma_div_bound(x: int, d: int)
    requires
        d >= 1,
    ensures
        x >= 0 ==> 0 <= x / d <= x,
        x < 0 ==> x <= x / d <= 0,
{
    lemma_fundamental_div_mod(x, d);
    let q = x / d;
    let r = x % d;
    assert(x == d * q + r);
    assert(x >= 0 ==> 0 <= q <= x) by (nonlinear_arith)
        requires
            d >= 1,
            x == d * q + r,
            0 <= r < d,
    ;
    assert(x < 0 ==> x <= q <= 0) by (nonlinear_arith)
        requires
            d >= 1,
            x == d * q + r,
            0 <= r < d,
    ;
}

/// Bounds on a product from bounds on its factors.
proof fn lemma_mul_bound(a: int, b: int, bound_a: int, bound_b: int)
    requires
        -bound_a <= a <= bound_a,
        -bound_b <= b <= bound_b,
        0 <= bound_a,
        0 <= bound_b,
    ensures
        -bound_a * bound_b <= a * b <= bound_a * bound_b,
{
    assert(-bound_a * bound_b <= a * b <= bound_a * bound_b) by (nonlinear_arith)
        requires
            -bound_a <= a <= bound_a,
            -bound_b <= b <= bound_b,
            0 <= bound_a,
            0 <= bound_b,
    ;
}

/// Magnitude bound on a quotient from a magnitude bound on the numerator and
/// a lower bound on the divisor.
proof fn lemma_div_mag(x: int, d: int, xb: int, dlo: int)
    requires
        1 <= dlo <= d,
        0 <= xb,
        -xb <= x <= xb,
    ensures
        -(xb / dlo + 1) <= x / d <= xb / dlo + 1,
{
    lemma_fundamental_div_mod(x, d);
    let q = x / d;
    let r = x % d;
    lemma_fundamental_div_mod(xb, dlo);
    let qb = xb / dlo;
    let rb = xb % dlo;
    assert(-(qb + 1) <= q <= qb + 1) by (nonlinear_arith)
        requires
            1 <= dlo <= d,
            x == d * q + r,
            0 <= r < d,
            xb == dlo * qb + rb,
            0 <= rb < dlo,
            -xb <= x <= xb,
    ;
}

/// Euclidean division by a positive divisor; the same floor division that
/// `/` denotes in contracts.
pub fn div_floor(x: i64, d: i64) -> (q: i64)
    requires
        1 <= d,
    ensures
        q == x as int / d as int,
{
    proof {
        lemma_div_bound(x as int, d as int);
    }
    x.checked_div_euclid(d).unwrap()
}

impl Viewport {
    /// The identity transform: scale 1.0, no offset.
    pub fn new() -> (v: Viewport)
        ensures
            v == (Viewport { scale: SCALE_ONE, offset_x: 0, offset_y: 0 }),
            vp_inv(v),
    {
        Viewport { scale: SCALE_ONE, offset_x: 0, offset_y: 0 }
    }

    /// Move the viewport by a screen-space delta, unclamped.
    pub fn pan(&mut self, dx: i64, dy: i64)
        requires
            vp_inv(*old(self)),
            -CANVAS_LIMIT <= dx <= CANVAS_LIMIT,
            -CANVAS_LIMIT <= dy <= CANVAS_LIMIT,
            -OFFSET_LIMIT + CANVAS_LIMIT * SCALE_ONE <= old(self).offset_x
                <= OFFSET_LIMIT - CANVAS_LIMIT * SCALE_ONE,
            -OFFSET_LIMIT + CANVAS_LIMIT * SCALE_ONE <= old(self).offset_y
                <= OFFSET_LIMIT - CANVAS_LIMIT * SCALE_ONE,
        ensures
            final(self).scale == old(self).scale,
            final(self).offset_x == old(self).offset_x + dx * SCALE_ONE,
            final(self).offset_y == old(self).offset_y + dy * SCALE_ONE,
            *final(self) == spec_pan(*old(self), dx as int, dy as int),
            vp_inv(*final(self)),
    {
        self.offset_x = self.offset_x + dx * SCALE_ONE;
        self.offset_y = self.offset_y + dy * SCALE_ONE;
    }

    /// One zoom step toward the pivot (in pixels): the scale moves by a
    /// factor of 1.1 or 0.9 within the zoom bounds, and the offset is updated
    /// so that the graph point under the pivot keeps its screen position.
    pub fn zoom(&mut self, zoom_in: bool, pivot_x: i64, pivot_y: i64)
        requires
            vp_inv(*old(self)),
            -CANVAS_LIMIT <= pivot_x <= CANVAS_LIMIT,
            -CANVAS_LIMIT <= pivot_y <= CANVAS_LIMIT,
            -ZOOM_GUARD <= old(self).offset_x <= ZOOM_GUARD,
            -ZOOM_GUARD <= old(self).offset_y <= ZOOM_GUARD,
        ensures
            final(self).scale == spec_zoom_scale(old(self).scale as int, zoom_in),
            final(self).offset_x == spec_zoom_offset(
                old(self).offset_x as int,
                pivot_x * SCALE_ONE,
                old(self).scale as int,
                final(self).scale as int,
            ),
            final(self).offset_y == spec_zoom_offset(
                old(self).offset_y as int,
                pivot_y * SCALE_ONE,
                old(self).scale as int,
                final(self).scale as int,
            ),
            *final(self) == spec_zoom(*old(self), zoom_in, pivot_x as int, pivot_y as int),
            vp_inv(*final(self)),
    {
        let factor: i64 = if zoom_in { ZOOM_IN_FACTOR } else { ZOOM_OUT_FACTOR };
        let scaled: i64 = (self.scale * factor) / SCALE_ONE;
        proof {
            lemma_div_bound(old(self).scale as int * factor as int, SCALE_ONE as int);
        }
        let new_scale: i64 = if scaled < ZOOM_MIN {
            ZOOM_MIN
        } else if scaled > ZOOM_MAX {
            ZOOM_MAX
        } else {
            scaled
        };

        let px: i64 = pivot_x * SCALE_ONE;
        let py: i64 = pivot_y * SCALE_ONE;
        let dx: i64 = px - self.offset_x;
        let dy: i64 = py - self.offset_y;
        proof {
            lemma_mul_bound(dx as int, new_scale as int, ZOOM_GUARD + CANVAS_LIMIT * SCALE_ONE, ZOOM_MAX as int);
            lemma_mul_bound(dy as int, new_scale as int, ZOOM_GUARD + CANVAS_LIMIT * SCALE_ONE, ZOOM_MAX as int);
            lemma_div_bound(dx as int * new_scale as int, old(self).scale as int);
            lemma_div_bound(dy as int * new_scale as int, old(self).scale as int);
            lemma_div_mag(
                dx as int * new_scale as int,
                old(self).scale as int,
                (ZOOM_GUARD + CANVAS_LIMIT * SCALE_ONE) * ZOOM_MAX,
                ZOOM_MIN as int,
            );
            lemma_div_mag(
                dy as int * new_scale as int,
                old(self).scale as int,
                (ZOOM_GUARD + CANVAS_LIMIT * SCALE_ONE) * ZOOM_MAX,
                ZOOM_MIN as int,
            );
        }
        let qx: i64 = div_floor(dx * new_scale, self.scale);
        let qy: i64 = div_floor(dy * new_scale, self.scale);
        self.offset_x = px - qx;
        self.offset_y = py - qy;
        self.scale = new_scale;
    }

    /// Fit the graph bounding box into a canvas: when the box is degenerate
    /// (zero width or height) the transform is left untouched; otherwise the
    /// scale makes the box fit inside the canvas with 60 pixels of padding,
    /// clamped into [0.5, 2.0], and the offset centers the box.
    pub fn fit_to_view(
        &mut self,
        canvas_w: i64,
        canvas_h: i64,
        min_x: i64,
        min_y: i64,
        max_x: i64,
        max_y: i64,
    )
        requires
            vp_inv(*old(self)),
            0 <= canvas_w <= CANVAS_LIMIT,
            0 <= canvas_h <= CANVAS_LIMIT,
            -GRAPH_LIMIT <= min_x <= max_x <= GRAPH_LIMIT,
            -GRAPH_LIMIT <= min_y <= max_y <= GRAPH_LIMIT,
        ensures
            (max_x - min_x <= 0 || max_y - min_y <= 0) ==> *final(self) == *old(self),
            (max_x - min_x > 0 && max_y - min_y > 0) ==> {
                let gw = max_x - min_x;
                let gh = max_y - min_y;
                let sx = (canvas_w - 2 * FIT_PADDING) * SCALE_ONE / gw;
                let sy = (canvas_h - 2 * FIT_PADDING) * SCALE_ONE / gh;
                let s = spec_clamp(if sx <= sy { sx } else { sy }, FIT_MIN as int, FIT_MAX as int);
                &&& final(self).scale == s
                &&& final(self).offset_x == (canvas_w * SCALE_ONE - (min_x + max_x) * s) / 2
                &&& final(self).offset_y == (canvas_h * SCALE_ONE - (min_y + max_y) * s) / 2
            },
            *final(self) == spec_fit(
                *old(self),
                canvas_w as int,
                canvas_h as int,
                min_x as int,
                min_y as int,
                max_x as int,
                max_y as int,
            ),
            vp_inv(*final(self)),
    {
        let gw: i64 = max_x - min_x;
        let gh: i64 = max_y - min_y;
        if gw > 0 && gh > 0 {
            proof {
                lemma_div_bound((canvas_w - 2 * FIT_PADDING) as int * SCALE_ONE, gw as int);
                lemma_div_bound((canvas_h - 2 * FIT_PADDING) as int * SCALE_ONE, gh as int);
            }
            let sx: i64 = div_floor((canvas_w - 2 * FIT_PADDING) * SCALE_ONE, gw);
            let sy: i64 = div_floor((canvas_h - 2 * FIT_PADDING) * SCALE_ONE, gh);
            let smaller: i64 = if sx <= sy { sx } else { sy };
            let s: i64 = if smaller < FIT_MIN {
                FIT_MIN
            } else if smaller > FIT_MAX {
                FIT_MAX
            } else {
                smaller
            };
            proof {
                lemma_mul_bound((min_x + max_x) as int, s as int, 2 * GRAPH_LIMIT, FIT_MAX as int);
                lemma_mul_bound((min_y + max_y) as int, s as int, 2 * GRAPH_LIMIT, FIT_MAX as int);
                lemma_div_bound(canvas_w as int * SCALE_ONE - (min_x + max_x) as int * s, 2);
                lemma_div_bound(canvas_h as int * SCALE_ONE - (min_y + max_y) as int * s, 2);
            }
            self.scale = s;
            self.offset_x = div_floor(canvas_w * SCALE_ONE - (min_x + max_x) * s, 2);
            self.offset_y = div_floor(canvas_h * SCALE_ONE - (min_y + max_y) * s, 2);
        }
    }

    /// Re-center on a node rectangle: the rectangle's center maps to the
    /// canvas center at the current scale.
    pub fn center_on(&mut self, x: i64, y: i64, w: i64, h: i64, canvas_w: i64, canvas_h: i64)
        requires
            vp_inv(*old(self)),
            0 <= canvas_w <= CANVAS_LIMIT,
            0 <= canvas_h <= CANVAS_LIMIT,
            -GRAPH_LIMIT <= x <= GRAPH_LIMIT,
            -GRAPH_LIMIT <= y <= GRAPH_LIMIT,
            0 <= w <= GRAPH_LIMIT,
            0 <= h <= GRAPH_LIMIT,
        ensures
            final(self).scale == old(self).scale,
            final(self).offset_x == (canvas_w * SCALE_ONE - (2 * x + w) * old(self).scale) / 2,
            final(self).offset_y == (canvas_h * SCALE_ONE - (2 * y + h) * old(self).scale) / 2,
            *final(self) == spec_center(
                *old(self),
                x as int,
                y as int,
                w as int,
                h as int,
                canvas_w as int,
                canvas_h as int,
            ),
            vp_inv(*final(self)),
    {
        proof {
            lemma_mul_bound((2 * x + w) as int, old(self).scale as int, 3 * GRAPH_LIMIT, ZOOM_MAX as int);
            lemma_mul_bound((2 * y + h) as int, old(self).scale as int, 3 * GRAPH_LIMIT, ZOOM_MAX as int);
            lemma_div_bound(canvas_w as int * SCALE_ONE - (2 * x + w) as int * old(self).scale, 2);
            lemma_div_bound(canvas_h as int * SCALE_ONE - (2 * y + h) as int * old(self).scale, 2);
        }
        self.offset_x = div_floor(canvas_w * SCALE_ONE - (2 * x + w) * self.scale, 2);
        self.offset_y = div_floor(canvas_h * SCALE_ONE - (2 * y + h) * self.scale, 2);
    }
}

/// A zoom step keeps the graph point under the pivot at the same screen
/// position. For a graph point `g` whose screen position equals the pivot
/// exactly, the position after the step equals the pivot exactly.
pub proof fn lemma_zoom_pivot_exact(g: int, old_scale: int, new_scale: int, offset: int, pivot: int)
    requires
        old_scale >= 1,
        new_scale >= 0,
        g * old_scale + offset == pivot,
    ensures
        g * new_scale + spec_zoom_offset(offset, pivot, old_scale, new_scale) == pivot,
{
    let d = pivot - offset;
    assert(d == g * old_scale);
    let q = d * new_scale / old_scale;
    assert(d * new_scale == (g * new_scale) * old_scale) by (nonlinear_arith)
        requires d == g * old_scale,
    ;
    lemma_fundamental_div_mod_converse(d * new_scale, old_scale, g * new_scale, 0);
    assert(q == g * new_scale);
}

/// General form of the pivot law: the graph point under the pivot is the
/// rational `d / old_scale` with `d = pivot - offset`. Its screen position
/// after a zoom step, scaled up by `old_scale` to stay in integers, drifts
/// from the pivot by less than one unit — that is, by less than one
/// thousandth of a pixel.
pub proof fn lemma_zoom_pivot_drift(old_scale: int, new_scale: int, offset: int, pivot: int)
    requires
        old_scale >= 1,
        new_scale >= 0,
    ensures
        ({
            let d = pivot - offset;
            let offset2 = spec_zoom_offset(offset, pivot, old_scale, new_scale);
            // old_scale * (screen-after of the point d / old_scale, minus pivot):
            let drift_scaled = d * new_scale + old_scale * offset2 - old_scale * pivot;
            0 <= drift_scaled < old_scale
        }),
{
    let d = pivot - offset;
    let q = d * new_scale / old_scale;
    lemma_fundamental_div_mod(d * new_scale, old_scale);
    let r = (d * new_scale) % old_scale;
    assert(d * new_scale == old_scale * q + r);
    let offset2 = spec_zoom_offset(offset, pivot, old_scale, new_scale);
    assert(offset2 == pivot - q);
    assert(old_scale * offset2 == old_scale * pivot - old_scale * q) by (nonlinear_arith)
        requires offset2 == pivot - q,
    ;
}

} // verus!
