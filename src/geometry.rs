use vstd::prelude::*;
use crate::types::{Body, Edge};

verus! {

pub open spec fn abs(x: int) -> int {
    if x < 0 {
        -x
    } else {
        x
    }
}

/// How far the boxes of `a` and `b` overlap along x (positive exactly when
/// their projections on x intersect).
pub open spec fn depth_x(a: Body, b: Body) -> int {
    a.colliding.half_extents.x + b.colliding.half_extents.x - abs(a.position.x - b.position.x)
}

/// How far the boxes of `a` and `b` overlap along y.
pub open spec fn depth_y(a: Body, b: Body) -> int {
    a.colliding.half_extents.y + b.colliding.half_extents.y - abs(a.position.y - b.position.y)
}

/// The edge of `b` that `a` struck, if their boxes overlap: the axis of
/// smaller penetration decides, and a tie goes to the vertical edges.
pub open spec fn overlap_spec(a: Body, b: Body) -> Option<Edge> {
    if depth_x(a, b) > 0 && depth_y(a, b) > 0 {
        if depth_x(a, b) < depth_y(a, b) {
            if a.position.x < b.position.x {
                Some(Edge::Left)
            } else {
                Some(Edge::Right)
            }
        } else {
            if a.position.y > b.position.y {
                Some(Edge::Top)
            } else {
                Some(Edge::Bottom)
            }
        }
    } else {
        None
    }
}

fn abs_diff(p: i64, q: i64) -> (r: i128)
    ensures
        r == abs(p - q),
{
    let d: i128 = p as i128 - q as i128;
    if d < 0 {
        -d
    } else {
        d
    }
}

/// Tests whether the boxes of `a` and `b` overlap and, if so, which edge of
/// `b` was struck.
pub fn overlap(a: &Body, b: &Body) -> (r: Option<Edge>)
    ensures
        r == overlap_spec(*a, *b),
{
    let dx: i128 = a.colliding.half_extents.x as i128 + b.colliding.half_extents.x as i128
        - abs_diff(a.position.x, b.position.x);
    let dy: i128 = a.colliding.half_extents.y as i128 + b.colliding.half_extents.y as i128
        - abs_diff(a.position.y, b.position.y);
    if dx > 0 && dy > 0 {
        if dx < dy {
            if a.position.x < b.position.x {
                Some(Edge::Left)
            } else {
                Some(Edge::Right)
            }
        } else if a.position.y > b.position.y {
            Some(Edge::Top)
        } else {
            Some(Edge::Bottom)
        }
    } else {
        None
    }
}

/// Overlap is symmetric: `a` meets `b` exactly when `b` meets `a`.
pub proof fn lemma_overlap_symmetric(a: Body, b: Body)
    ensures
        overlap_spec(a, b).is_some() == overlap_spec(b, a).is_some(),
{
    assert(abs(a.position.x - b.position.x) == abs(b.position.x - a.position.x));
    assert(abs(a.position.y - b.position.y) == abs(b.position.y - a.position.y));
}

} // verus!
