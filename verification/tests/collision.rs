use pong::collision::{collide, CollisionOutcome, Edge};
use pong::geometry::{Extent, Vector2, TICKS_PER_UNIT};

const U: i64 = TICKS_PER_UNIT;

fn at(x: i64, y: i64) -> Vector2 {
    Vector2 { x: x * U, y: y * U }
}

fn sized(width: u64, height: u64) -> Extent {
    Extent { width: width * U as u64, height: height * U as u64 }
}

#[test]
fn ball_reaching_left_wall_hits_left() {
    let outcome = collide(at(-431, 0), sized(30, 30), at(-450, 0), sized(10, 610));
    assert_eq!(outcome, CollisionOutcome::Hit(Edge::Left));
}

#[test]
fn ball_reaching_right_wall_hits_right() {
    let outcome = collide(at(431, 0), sized(30, 30), at(450, 0), sized(10, 610));
    assert_eq!(outcome, CollisionOutcome::Hit(Edge::Right));
}

#[test]
fn ball_reaching_top_and_bottom_walls() {
    assert_eq!(
        collide(at(0, 281), sized(30, 30), at(0, 300), sized(910, 10)),
        CollisionOutcome::Hit(Edge::Top)
    );
    assert_eq!(
        collide(at(0, -281), sized(30, 30), at(0, -300), sized(910, 10)),
        CollisionOutcome::Hit(Edge::Bottom)
    );
}

#[test]
fn ball_far_from_wall_misses() {
    // 69 units between the centres, 20 units of reach.
    let outcome = collide(at(-381, 0), sized(30, 30), at(-450, 0), sized(10, 610));
    assert_eq!(outcome, CollisionOutcome::Miss);
}

#[test]
fn ball_at_paddle_hits_it_from_the_side() {
    // Deeper vertically than sideways on both sides of the paddle's centre.
    let outcome = collide(at(-381, 0), sized(30, 30), at(-380, 10), sized(30, 120));
    assert_eq!(outcome, CollisionOutcome::Hit(Edge::Right));
    let outcome = collide(at(-360, 0), sized(30, 30), at(-380, 10), sized(30, 120));
    assert_eq!(outcome, CollisionOutcome::Hit(Edge::Left));
}

#[test]
fn touching_rectangles_do_not_overlap() {
    assert_eq!(collide(at(0, 0), sized(10, 10), at(10, 0), sized(10, 10)), CollisionOutcome::Miss);
    assert_eq!(collide(at(0, 0), sized(10, 10), at(0, -10), sized(10, 10)), CollisionOutcome::Miss);
    let near = Vector2 { x: 10 * U - 1, y: 0 };
    assert_eq!(collide(at(0, 0), sized(10, 10), near, sized(10, 10)), CollisionOutcome::Hit(Edge::Right));
}

#[test]
fn smaller_depth_decides_the_axis() {
    // 2 units deep sideways, 6 units deep vertically.
    assert_eq!(
        collide(at(0, 0), sized(10, 10), at(8, 4), sized(10, 10)),
        CollisionOutcome::Hit(Edge::Right)
    );
    // 6 units deep sideways, 2 units deep vertically.
    assert_eq!(
        collide(at(0, 0), sized(10, 10), at(4, 8), sized(10, 10)),
        CollisionOutcome::Hit(Edge::Top)
    );
    assert_eq!(
        collide(at(0, 0), sized(10, 10), at(-4, -8), sized(10, 10)),
        CollisionOutcome::Hit(Edge::Bottom)
    );
    // Equal depths: the horizontal axis.
    assert_eq!(
        collide(at(0, 0), sized(10, 10), at(-5, 5), sized(10, 10)),
        CollisionOutcome::Hit(Edge::Left)
    );
}

#[test]
fn equal_centres_give_right() {
    assert_eq!(
        collide(at(3, 3), sized(10, 10), at(3, 3), sized(10, 10)),
        CollisionOutcome::Hit(Edge::Right)
    );
}

#[test]
fn overlap_does_not_depend_on_the_order() {
    let rects = [
        (at(0, 0), sized(10, 10)),
        (at(8, 4), sized(10, 10)),
        (at(-431, 0), sized(30, 30)),
        (at(-450, 0), sized(10, 610)),
        (at(0, 300), sized(910, 10)),
        (at(5, 0), sized(0, 0)),
    ];
    for (a_center, a_size) in rects {
        for (b_center, b_size) in rects {
            let there = collide(a_center, a_size, b_center, b_size);
            let back = collide(b_center, b_size, a_center, a_size);
            assert_eq!(there == CollisionOutcome::Miss, back == CollisionOutcome::Miss);
        }
    }
}

#[test]
fn extreme_coordinates_are_handled() {
    let far_left = Vector2 { x: i64::MIN, y: i64::MIN };
    let far_right = Vector2 { x: i64::MAX, y: i64::MAX };
    let huge = Extent { width: u64::MAX, height: u64::MAX };
    // The centres are as far apart as the two rectangles reach: they touch.
    assert_eq!(collide(far_left, huge, far_right, huge), CollisionOutcome::Miss);
    let nearer = Vector2 { x: i64::MIN + 1, y: i64::MIN + 1 };
    assert_eq!(collide(nearer, huge, far_right, huge), CollisionOutcome::Hit(Edge::Right));
    assert_eq!(collide(far_right, huge, nearer, huge), CollisionOutcome::Hit(Edge::Left));
    let small = Extent { width: 1, height: 1 };
    assert_eq!(collide(far_left, small, far_right, small), CollisionOutcome::Miss);
}
