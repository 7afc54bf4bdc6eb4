//! Axis-aligned box vs. circle overlap test.
//!
//! The test clamps the circle centre to the box and compares squared
//! distances, so no square root is taken.  `lemma_circle_check_exact` shows
//! that this is the true "minimum distance to the box is at most the radius"
//! predicate.

use vstd::prelude::*;
use crate::geometry::Vec2;
use crate::geometry::abs_i;

verus! {

/// Largest accepted magnitude for box corners, circle centres and radii
/// in the overlap test; keeps summed squares inside `i128`.
pub const BOX_LIMIT: i64 = 0x2000000000000000;

#[derive(Clone, Copy, Debug, PartialEq, Eq, Structural)]
pub struct AABB {
    pub left: i64,
    pub right: i64,
    pub top: i64,
    pub bottom: i64,
}

/// The x coordinate of the point of the box nearest to `px`.
pub open spec fn closest_in_x(b: AABB, px: int) -> int {
    if px < b.left {
        b.left as int
    } else if px > b.right {
        b.right as int
    } else {
        px
    }
}

/// The y coordinate of the point of the box nearest to `py`.
pub open spec fn closest_in_y(b: AABB, py: int) -> int {
    if py > b.top {
        b.top as int
    } else if py < b.bottom {
        b.bottom as int
    } else {
        py
    }
}

pub open spec fn sq(a: int) -> int {
    a * a
}

/// The circle around `(px, py)` with the given radius overlaps box `b`.
pub open spec fn aabb_circle_collides(b: AABB, px: int, py: int, radius: int) -> bool {
    sq(px - closest_in_x(b, px)) + sq(py - closest_in_y(b, py)) <= sq(radius)
}

impl AABB {
    /// Box spanned from a lower-left corner by a width and a height.
    pub fn from_rect(position: Vec2, width: i64, height: i64) -> (r: AABB)
        requires
            i64::MIN <= position.x + width <= i64::MAX,
            i64::MIN <= position.y + height <= i64::MAX,
        ensures
            r.left == position.x,
            r.right == position.x + width,
            r.bottom == position.y,
            r.top == position.y + height,
    {
        AABB {
            left: position.x,
            right: position.x + width,
            top: position.y + height,
            bottom: position.y,
        }
    }

    /// True exactly when the circle overlaps this box.
    pub fn circle_collision_check(&self, position: Vec2, radius: i64) -> (r: bool)
        requires
            -BOX_LIMIT <= self.left <= BOX_LIMIT,
            -BOX_LIMIT <= self.right <= BOX_LIMIT,
            -BOX_LIMIT <= self.top <= BOX_LIMIT,
            -BOX_LIMIT <= self.bottom <= BOX_LIMIT,
            -BOX_LIMIT <= position.x <= BOX_LIMIT,
            -BOX_LIMIT <= position.y <= BOX_LIMIT,
            -BOX_LIMIT <= radius <= BOX_LIMIT,
        ensures
            r == aabb_circle_collides(*self, position.x as int, position.y as int, radius as int),
    {
        let test_x: i64 = if position.x < self.left {
            self.left
        } else if position.x > self.right {
            self.right
        } else {
            position.x
        };
        let test_y: i64 = if position.y > self.top {
            self.top
        } else if position.y < self.bottom {
            self.bottom
        } else {
            position.y
        };
        let dx: i128 = position.x as i128 - test_x as i128;
        let dy: i128 = position.y as i128 - test_y as i128;
        proof {
            lemma_sq_within(dx as int, 2 * BOX_LIMIT as int);
            lemma_sq_within(dy as int, 2 * BOX_LIMIT as int);
            lemma_sq_within(radius as int, BOX_LIMIT as int);
        }
        let rr: i128 = radius as i128 * radius as i128;
        dx * dx + dy * dy <= rr
    }
}

proof fn lemma_sq_within(a: int, m: int)
    requires
        0 <= m,
        -m <= a <= m,
    ensures
        0 <= sq(a) <= m * m,
{
    assert(0 <= a * a <= m * m) by (nonlinear_arith)
        requires
            0 <= m,
            -m <= a <= m,
    ;
}

proof fn lemma_sq_ordered(a: int, b: int)
    requires
        abs_i(b) <= abs_i(a),
    ensures
        sq(b) <= sq(a),
{
    assert(sq(b) <= sq(a)) by (nonlinear_arith)
        requires
            abs_i(b) <= abs_i(a),
    ;
}

/// The clamped point lies in the box, and no point of the box is closer to
/// the circle centre: the overlap test therefore decides "minimum distance
/// from the centre to the box is at most the radius".
pub proof fn lemma_closest_point_minimal(b: AABB, px: int, py: int, qx: int, qy: int)
    requires
        b.left <= b.right,
        b.bottom <= b.top,
        b.left <= qx <= b.right,
        b.bottom <= qy <= b.top,
    ensures
        b.left <= closest_in_x(b, px) <= b.right,
        b.bottom <= closest_in_y(b, py) <= b.top,
        sq(px - closest_in_x(b, px)) + sq(py - closest_in_y(b, py)) <= sq(px - qx) + sq(py - qy),
{
    let cx = closest_in_x(b, px);
    let cy = closest_in_y(b, py);
    assert(abs_i(px - cx) <= abs_i(px - qx));
    assert(abs_i(py - cy) <= abs_i(py - qy));
    lemma_sq_ordered(px - qx, px - cx);
    lemma_sq_ordered(py - qy, py - cy);
}

/// `(qx, qy)` is a point of box `b` lying within the circle around
/// `(px, py)` of the given radius.
pub open spec fn box_point_within(b: AABB, px: int, py: int, radius: int, qx: int, qy: int) -> bool {
    b.left <= qx <= b.right && b.bottom <= qy <= b.top && sq(px - qx) + sq(py - qy) <= sq(radius)
}

/// The squared-distance overlap test is true exactly when some point of the
/// box lies within the circle.
pub proof fn lemma_circle_check_exact(b: AABB, px: int, py: int, radius: int)
    requires
        b.left <= b.right,
        b.bottom <= b.top,
    ensures
        aabb_circle_collides(b, px, py, radius) <==> exists|qx: int, qy: int| #[trigger]
            box_point_within(b, px, py, radius, qx, qy),
{
    let cx = closest_in_x(b, px);
    let cy = closest_in_y(b, py);
    if aabb_circle_collides(b, px, py, radius) {
        lemma_closest_point_minimal(b, px, py, cx, cy);
        assert(box_point_within(b, px, py, radius, cx, cy));
    }
    if exists|qx: int, qy: int| #[trigger] box_point_within(b, px, py, radius, qx, qy) {
        let (qx, qy) = choose|qx: int, qy: int| #[trigger] box_point_within(
            b,
            px,
            py,
            radius,
            qx,
            qy,
        );
        lemma_closest_point_minimal(b, px, py, qx, qy);
    }
}

} // verus!
