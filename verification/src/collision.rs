use vstd::prelude::*;
use crate::geometry::{Extent, Vector2};

verus! {

/// The side on which a moving rectangle met an obstacle: `Left` where the
/// obstacle lies toward smaller x, `Top` where it lies toward larger y.
#[derive(Clone, Copy, Debug, PartialEq, Eq, Structural)]
pub enum Edge {
    Left,
    Right,
    Top,
    Bottom,
}

/// What a collision test found.
#[derive(Clone, Copy, Debug, PartialEq, Eq, Structural)]
pub enum CollisionOutcome {
    Miss,
    Hit(Edge),
}

/// Twice the depth by which two intervals, given by centre and width,
/// reach into each other; zero or less where they do not.
pub open spec fn depth2(a_center: int, a_width: int, b_center: int, b_width: int) -> int {
    if a_center >= b_center {
        a_width + b_width - 2 * (a_center - b_center)
    } else {
        a_width + b_width - 2 * (b_center - a_center)
    }
}

/// Twice the depth of the overlap along x.
pub open spec fn depth2_x(a_center: Vector2, a_size: Extent, b_center: Vector2, b_size: Extent) -> int {
    depth2(a_center.x as int, a_size.width as int, b_center.x as int, b_size.width as int)
}

/// Twice the depth of the overlap along y.
pub open spec fn depth2_y(a_center: Vector2, a_size: Extent, b_center: Vector2, b_size: Extent) -> int {
    depth2(a_center.y as int, a_size.height as int, b_center.y as int, b_size.height as int)
}

/// Two rectangles overlap where their projections overlap on both axes.
/// Rectangles that only touch do not overlap.
pub open spec fn overlaps(a_center: Vector2, a_size: Extent, b_center: Vector2, b_size: Extent) -> bool {
    depth2_x(a_center, a_size, b_center, b_size) > 0 && depth2_y(a_center, a_size, b_center, b_size) > 0
}

/// The edge of an overlap: the axis with the smaller depth decides between
/// horizontal and vertical, the horizontal one where both are equal; on
/// that axis the side is the one on which rectangle B's centre lies, the
/// right or the top where the centres agree.
pub open spec fn struck_edge(a_center: Vector2, a_size: Extent, b_center: Vector2, b_size: Extent) -> Edge {
    if depth2_y(a_center, a_size, b_center, b_size) < depth2_x(a_center, a_size, b_center, b_size) {
        if b_center.y < a_center.y {
            Edge::Bottom
        } else {
            Edge::Top
        }
    } else {
        if b_center.x < a_center.x {
            Edge::Left
        } else {
            Edge::Right
        }
    }
}

/// What the test of rectangle A against rectangle B finds.
pub open spec fn collision(a_center: Vector2, a_size: Extent, b_center: Vector2, b_size: Extent) -> CollisionOutcome {
    if overlaps(a_center, a_size, b_center, b_size) {
        CollisionOutcome::Hit(struck_edge(a_center, a_size, b_center, b_size))
    } else {
        CollisionOutcome::Miss
    }
}

fn depth2_of(a_center: i64, a_width: u64, b_center: i64, b_width: u64) -> (d: i128)
    ensures
        d == depth2(a_center as int, a_width as int, b_center as int, b_width as int),
{
    let reach: i128 = a_width as i128 + b_width as i128;
    if a_center >= b_center {
        reach - 2 * (a_center as i128 - b_center as i128)
    } else {
        reach - 2 * (b_center as i128 - a_center as i128)
    }
}

/// Tests rectangle A, the moving one, against rectangle B.
pub fn collide(a_center: Vector2, a_size: Extent, b_center: Vector2, b_size: Extent) -> (outcome:
    CollisionOutcome)
    ensures
        outcome == collision(a_center, a_size, b_center, b_size),
{
    let dx: i128 = depth2_of(a_center.x, a_size.width, b_center.x, b_size.width);
    let dy: i128 = depth2_of(a_center.y, a_size.height, b_center.y, b_size.height);
    if dx > 0 && dy > 0 {
        if dy < dx {
            if b_center.y < a_center.y {
                CollisionOutcome::Hit(Edge::Bottom)
            } else {
                CollisionOutcome::Hit(Edge::Top)
            }
        } else {
            if b_center.x < a_center.x {
                CollisionOutcome::Hit(Edge::Left)
            } else {
                CollisionOutcome::Hit(Edge::Right)
            }
        }
    } else {
        CollisionOutcome::Miss
    }
}

/// The edge that B reports when the roles are exchanged.
pub open spec fn opposite(edge: Edge) -> Edge {
    match edge {
        Edge::Left => Edge::Right,
        Edge::Right => Edge::Left,
        Edge::Top => Edge::Bottom,
        Edge::Bottom => Edge::Top,
    }
}

/// Overlap does not depend on which rectangle is named first, and so
/// neither does whether the test reports a hit.
pub proof fn overlap_is_symmetric(a_center: Vector2, a_size: Extent, b_center: Vector2, b_size: Extent)
    ensures
        overlaps(a_center, a_size, b_center, b_size) == overlaps(b_center, b_size, a_center, a_size),
        collision(a_center, a_size, b_center, b_size) is Hit
            <==> collision(b_center, b_size, a_center, a_size) is Hit,
{
}

/// With the roles exchanged the test reports the opposite edge, unless
/// the centres agree on the deciding axis.
pub proof fn exchanged_roles_report_opposite_edge(
    a_center: Vector2,
    a_size: Extent,
    b_center: Vector2,
    b_size: Extent,
)
    requires
        overlaps(a_center, a_size, b_center, b_size),
        a_center.x != b_center.x,
        a_center.y != b_center.y,
    ensures
        struck_edge(b_center, b_size, a_center, a_size) == opposite(
            struck_edge(a_center, a_size, b_center, b_size),
        ),
{
}

} // verus!
