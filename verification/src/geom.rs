//! Axis-aligned rectangle intersection and bounce-direction resolution.
//!
//! Coordinates are integers in micropixels; the y axis grows downward, as in
//! screen space. A collision between a moving rectangle and a static one is
//! resolved by pushing the moving rectangle out along one axis, chosen by the
//! shape of the overlap region (wider than tall means a vertical bounce), and
//! forcing the velocity component on that axis away from the static
//! rectangle's center.

use vstd::prelude::*;

verus! {

/// Coordinate magnitudes the collision routines accept, chosen so that every
/// intermediate product and sum fits comfortably in an `i64`.
pub const COORD_LIMIT: i64 = 4_000_000_000_000;

/// Side-length limit for the same purpose.
pub const SIDE_LIMIT: i64 = 2_000_000_000;

/// Velocity-component magnitude limit accepted by collision resolution.
pub const VEL_LIMIT: i64 = 1_000_000;

/// An axis-aligned rectangle: top-left corner, width and height, in
/// micropixels.
#[derive(Clone, Copy, PartialEq, Eq, Structural, Debug)]
pub struct Rect {
    pub x: i64,
    pub y: i64,
    pub w: i64,
    pub h: i64,
}

/// A 2D velocity. Components are in per-mille of the speed constant that the
/// entity update applies, so (0, 1000) means "straight down at full speed".
#[derive(Clone, Copy, PartialEq, Eq, Structural, Debug)]
pub struct Vel {
    pub x: i64,
    pub y: i64,
}

/// Sign as the floating-point `signum` convention defines it:
/// zero counts as positive.
pub open spec fn sign(t: int) -> int {
    if t >= 0 {
        1
    } else {
        -1
    }
}

pub open spec fn iabs(t: int) -> int {
    if t < 0 {
        -t
    } else {
        t
    }
}

pub open spec fn inter_left(a: Rect, b: Rect) -> int {
    if a.x >= b.x {
        a.x as int
    } else {
        b.x as int
    }
}

pub open spec fn inter_top(a: Rect, b: Rect) -> int {
    if a.y >= b.y {
        a.y as int
    } else {
        b.y as int
    }
}

pub open spec fn inter_right(a: Rect, b: Rect) -> int {
    if a.x + a.w <= b.x + b.w {
        a.x + a.w
    } else {
        b.x + b.w
    }
}

pub open spec fn inter_bottom(a: Rect, b: Rect) -> int {
    if a.y + a.h <= b.y + b.h {
        a.y + a.h
    } else {
        b.y + b.h
    }
}

/// The two rectangles have a non-empty (possibly degenerate, zero-area)
/// intersection: closed ranges on both axes meet. This is exactly when the
/// intersection computed by the resolution step exists.
pub open spec fn rects_touch(a: Rect, b: Rect) -> bool {
    inter_right(a, b) >= inter_left(a, b) && inter_bottom(a, b) >= inter_top(a, b)
}

/// Width of the overlap region (meaningful when `rects_touch`).
pub open spec fn overlap_w(a: Rect, b: Rect) -> int {
    inter_right(a, b) - inter_left(a, b)
}

/// Height of the overlap region (meaningful when `rects_touch`).
pub open spec fn overlap_h(a: Rect, b: Rect) -> int {
    inter_bottom(a, b) - inter_top(a, b)
}

/// Strict overlap on the horizontal axis: the open x-ranges intersect.
pub open spec fn overlap_on_x(a: Rect, b: Rect) -> bool {
    a.x < b.x + b.w && b.x < a.x + a.w
}

/// Strict overlap on the vertical axis: the open y-ranges intersect.
pub open spec fn overlap_on_y(a: Rect, b: Rect) -> bool {
    a.y < b.y + b.h && b.y < a.y + a.h
}

/// The collision is classified as vertical: the overlap region is wider than
/// it is tall, so the moving rectangle is pushed out along the y axis.
pub open spec fn resolved_on_y(a: Rect, b: Rect) -> bool {
    overlap_w(a, b) > overlap_h(a, b)
}

/// What `resolve_collision` does: the moving rectangle, its velocity, and
/// whether a collision was resolved.
///
/// On intersection the bounce axis is chosen by the overlap's shape; the
/// moving rectangle is pushed out along that axis by the overlap's extent, in
/// the direction away from the static rectangle's center, and the velocity
/// component on that axis is forced to point the same way, keeping its
/// magnitude. Corner hits can be mis-classified by this width-versus-height
/// heuristic; that behavior is deliberate.
pub open spec fn resolve_spec(a: Rect, v: Vel, b: Rect) -> (Rect, Vel, bool) {
    if !rects_touch(a, b) {
        (a, v, false)
    } else {
        let iw = overlap_w(a, b);
        let ih = overlap_h(a, b);
        if iw > ih {
            // Push along y, away from b's center; sign(0) counts as positive,
            // as the floating-point signum convention does.
            if sign(2 * b.y + b.h - 2 * a.y - a.h) == 1 {
                (Rect { y: (a.y - ih) as i64, ..a }, Vel { y: (-iabs(v.y as int)) as i64, ..v }, true)
            } else {
                (Rect { y: (a.y + ih) as i64, ..a }, Vel { y: iabs(v.y as int) as i64, ..v }, true)
            }
        } else {
            if sign(2 * b.x + b.w - 2 * a.x - a.w) == 1 {
                (Rect { x: (a.x - iw) as i64, ..a }, Vel { x: (-iabs(v.x as int)) as i64, ..v }, true)
            } else {
                (Rect { x: (a.x + iw) as i64, ..a }, Vel { x: iabs(v.x as int) as i64, ..v }, true)
            }
        }
    }
}

/// The rectangle's fields are within the limits the collision routine
/// accepts.
pub open spec fn rect_bounded(r: Rect) -> bool {
    &&& -COORD_LIMIT <= r.x <= COORD_LIMIT
    &&& -COORD_LIMIT <= r.y <= COORD_LIMIT
    &&& 0 <= r.w <= SIDE_LIMIT
    &&& 0 <= r.h <= SIDE_LIMIT
}

/// The velocity's components are within the limits the collision routine
/// accepts.
pub open spec fn vel_bounded(v: Vel) -> bool {
    &&& -VEL_LIMIT <= v.x <= VEL_LIMIT
    &&& -VEL_LIMIT <= v.y <= VEL_LIMIT
}

/// Resolve a collision of the moving rectangle `a` (with velocity `vel`)
/// against the static rectangle `b`. Returns false and changes nothing when
/// the rectangles do not intersect.
pub fn resolve_collision(a: &mut Rect, vel: &mut Vel, b: &Rect) -> (hit: bool)
    requires
        rect_bounded(*old(a)),
        rect_bounded(*b),
        vel_bounded(*old(vel)),
    ensures
        (*final(a), *final(vel), hit) == resolve_spec(*old(a), *old(vel), *b),
{
    let left = if a.x >= b.x {
        a.x
    } else {
        b.x
    };
    let top = if a.y >= b.y {
        a.y
    } else {
        b.y
    };
    let right = if a.x + a.w <= b.x + b.w {
        a.x + a.w
    } else {
        b.x + b.w
    };
    let bottom = if a.y + a.h <= b.y + b.h {
        a.y + a.h
    } else {
        b.y + b.h
    };
    if right < left || bottom < top {
        return false;
    }
    let iw = right - left;
    let ih = bottom - top;
    let sx: i64 = if 2 * b.x + b.w >= 2 * a.x + a.w {
        1
    } else {
        -1
    };
    let sy: i64 = if 2 * b.y + b.h >= 2 * a.y + a.h {
        1
    } else {
        -1
    };
    if iw > ih {
        let m = if vel.y < 0 {
            -vel.y
        } else {
            vel.y
        };
        if sy == 1 {
            a.y = a.y - ih;
            vel.y = -m;
        } else {
            a.y = a.y + ih;
            vel.y = m;
        }
    } else {
        let m = if vel.x < 0 {
            -vel.x
        } else {
            vel.x
        };
        if sx == 1 {
            a.x = a.x - iw;
            vel.x = -m;
        } else {
            a.x = a.x + iw;
            vel.x = m;
        }
    }
    true
}

/// Resolution of non-intersecting rectangles is a no-op, and therefore
/// idempotent: it reports no collision and leaves both the rectangle and the
/// velocity unchanged, so repeating the call with the unchanged values gives
/// the same outcome again.
pub proof fn lemma_resolve_miss_is_noop(a: Rect, v: Vel, b: Rect)
    requires
        !rects_touch(a, b),
    ensures
        resolve_spec(a, v, b) == (a, v, false),
        resolve_spec(resolve_spec(a, v, b).0, resolve_spec(a, v, b).1, b) == (a, v, false),
{
}

/// One rectangle's y-span properly contains the other's.
pub open spec fn spans_nested_y(a: Rect, b: Rect) -> bool {
    ||| (a.y <= b.y && b.y + b.h <= a.y + a.h && (a.y < b.y || b.y + b.h < a.y + a.h))
    ||| (b.y <= a.y && a.y + a.h <= b.y + b.h && (b.y < a.y || a.y + a.h < b.y + b.h))
}

/// One rectangle's x-span properly contains the other's.
pub open spec fn spans_nested_x(a: Rect, b: Rect) -> bool {
    ||| (a.x <= b.x && b.x + b.w <= a.x + a.w && (a.x < b.x || b.x + b.w < a.x + a.w))
    ||| (b.x <= a.x && a.x + a.w <= b.x + b.w && (b.x < a.x || a.x + a.w < b.x + b.w))
}

/// After a resolved collision the rectangles no longer strictly overlap on
/// the resolved axis: the push-out step moves the moving rectangle flush with
/// the static one.
///
/// The law excludes the inputs on which the push-out heuristic does
/// not separate: when one rectangle's span on the resolved axis properly
/// contains the other's, pushing by the overlap extent (the contained span's
/// length) cannot clear the containing span.
pub proof fn lemma_resolve_separates(a: Rect, v: Vel, b: Rect)
    requires
        rect_bounded(a),
        rect_bounded(b),
        rects_touch(a, b),
        resolved_on_y(a, b) ==> !spans_nested_y(a, b),
        !resolved_on_y(a, b) ==> !spans_nested_x(a, b),
    ensures
        resolve_spec(a, v, b).2,
        resolved_on_y(a, b) ==> !overlap_on_y(resolve_spec(a, v, b).0, b),
        !resolved_on_y(a, b) ==> !overlap_on_x(resolve_spec(a, v, b).0, b),
{
    if resolved_on_y(a, b) {
        let ih = overlap_h(a, b);
        assert(0 <= ih <= a.h);
        let a2 = resolve_spec(a, v, b).0;
        if sign(2 * b.y + b.h - 2 * a.y - a.h) == 1 {
            assert(a2.y == a.y - ih);
            if a.y <= b.y && a.y + a.h <= b.y + b.h {
                assert(a2.y + a2.h == b.y);
            } else {
                assert(b.y <= a.y && b.y + b.h <= a.y + a.h);
                assert(a.y == b.y && a.y + a.h == b.y + b.h);
                assert(a2.y + a2.h == b.y);
            }
        } else {
            assert(a2.y == a.y + ih);
            assert(b.y <= a.y && b.y + b.h <= a.y + a.h);
            assert(a2.y == b.y + b.h);
        }
    } else {
        let iw = overlap_w(a, b);
        assert(0 <= iw <= a.w);
        let a2 = resolve_spec(a, v, b).0;
        if sign(2 * b.x + b.w - 2 * a.x - a.w) == 1 {
            assert(a2.x == a.x - iw);
            if a.x <= b.x && a.x + a.w <= b.x + b.w {
                assert(a2.x + a2.w == b.x);
            } else {
                assert(b.x <= a.x && b.x + b.w <= a.x + a.w);
                assert(a.x == b.x && a.x + a.w == b.x + b.w);
                assert(a2.x + a2.w == b.x);
            }
        } else {
            assert(a2.x == a.x + iw);
            assert(b.x <= a.x && b.x + b.w <= a.x + a.w);
            assert(a2.x == b.x + b.w);
        }
    }
}

} // verus!
