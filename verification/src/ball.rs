use vstd::prelude::*;
use crate::collision::{
    collide, overlap_is_symmetric, overlaps, struck_edge, CollisionOutcome, Edge,
};
use crate::events::{QueueModel, ScoreEvent, ScoreEvents};
use crate::geometry::{
    advance, displacement, negatable, saturated, squared_length, Extent, Vector2,
};
use crate::player::PlayerId;

verus! {

/// The speed of the ball, in ticks per microsecond.
pub const BALL_SPEED: i64 = 400_000;

/// The longest time, in microseconds, that one step moves the ball by.
pub const MAX_STEP: u64 = 200_000;

/// The ball: where it is, how fast it moves, how large it is.
#[derive(Clone, Copy, Debug, PartialEq, Eq, Structural)]
pub struct Ball {
    pub position: Vector2,
    pub velocity: Vector2,
    pub size: Extent,
}

/// What an obstacle is: a wall, or a paddle.
#[derive(Clone, Copy, Debug, PartialEq, Eq, Structural)]
pub enum ColliderKind {
    Solid,
    Player,
}

/// An obstacle in the ball's way.
#[derive(Clone, Copy, Debug, PartialEq, Eq, Structural)]
pub struct Collider {
    pub kind: ColliderKind,
    pub center: Vector2,
    pub size: Extent,
}

/// Whether `velocity` has the speed of the ball to within one tick per
/// microsecond, which is a thousandth of a unit per second.
pub open spec fn has_ball_speed(velocity: Vector2) -> bool {
    (BALL_SPEED - 1) * (BALL_SPEED - 1) <= squared_length(velocity) <= (BALL_SPEED + 1) * (BALL_SPEED
        + 1)
}

/// Tests whether a velocity has the speed of the ball.
pub fn is_ball_speed(velocity: Vector2) -> (ok: bool)
    ensures
        ok == has_ball_speed(velocity),
{
    let limit: i64 = BALL_SPEED + 1;
    if velocity.x < -limit || velocity.x > limit || velocity.y < -limit || velocity.y > limit {
        proof {
            let x: int = velocity.x as int;
            let y: int = velocity.y as int;
            assert(x * x + y * y > 400_001 * 400_001) by (nonlinear_arith)
                requires
                    x < -400_001 || x > 400_001 || y < -400_001 || y > 400_001,
            {
                assert(x * x >= 0 && y * y >= 0);
                if x < -400_001 || x > 400_001 {
                    assert(x * x > 400_001 * 400_001);
                } else {
                    assert(y * y > 400_001 * 400_001);
                }
            }
        }
        return false;
    }
    assert(0 <= velocity.x * velocity.x <= 160_000_800_001 && 0 <= velocity.y * velocity.y
        <= 160_000_800_001) by (nonlinear_arith)
        requires
            -400_001 <= velocity.x <= 400_001,
            -400_001 <= velocity.y <= 400_001,
    ;
    let squared: i64 = velocity.x * velocity.x + velocity.y * velocity.y;
    159_999_200_001 <= squared && squared <= 160_000_800_001
}

/// The time that the ball moves by when `elapsed` has passed.
pub open spec fn step_time(elapsed: u64) -> int {
    if elapsed > MAX_STEP {
        MAX_STEP as int
    } else {
        elapsed as int
    }
}

/// Where the ball is after `elapsed`, each coordinate stopping at the ends of `i64`.
pub open spec fn moved(position: Vector2, velocity: Vector2, elapsed: u64) -> Vector2 {
    Vector2 {
        x: saturated(position.x + displacement(velocity.x as int, step_time(elapsed))) as i64,
        y: saturated(position.y + displacement(velocity.y as int, step_time(elapsed))) as i64,
    }
}

/// Moves the ball by its velocity times the elapsed time, the time held to `MAX_STEP`.
pub fn ball_movement_system(ball: &mut Ball, elapsed: u64)
    ensures
        final(ball).position == moved(old(ball).position, old(ball).velocity, elapsed),
        final(ball).velocity == old(ball).velocity,
        final(ball).size == old(ball).size,
        i64::MIN <= old(ball).position.x + displacement(
            old(ball).velocity.x as int,
            step_time(elapsed),
        ) <= i64::MAX ==> final(ball).position.x == old(ball).position.x + displacement(
            old(ball).velocity.x as int,
            step_time(elapsed),
        ),
        i64::MIN <= old(ball).position.y + displacement(
            old(ball).velocity.y as int,
            step_time(elapsed),
        ) <= i64::MAX ==> final(ball).position.y == old(ball).position.y + displacement(
            old(ball).velocity.y as int,
            step_time(elapsed),
        ),
{
    let step: u64 = if elapsed > MAX_STEP {
        MAX_STEP
    } else {
        elapsed
    };
    let x: i64 = advance(ball.position.x, ball.velocity.x, step);
    let y: i64 = advance(ball.position.y, ball.velocity.y, step);
    ball.position = Vector2 { x, y };
}

/// Every time of `MAX_STEP` or more moves the ball as `MAX_STEP` does.
pub proof fn long_frames_move_alike(position: Vector2, velocity: Vector2, elapsed: u64)
    requires
        elapsed >= MAX_STEP,
    ensures
        moved(position, velocity, elapsed) == moved(position, velocity, MAX_STEP),
{
}

/// Whether a hit on `edge` turns the horizontal component round: only
/// where the ball was moving toward that edge.
pub open spec fn reflects_x(edge: Edge, velocity: Vector2) -> bool {
    (edge == Edge::Left && velocity.x < 0) || (edge == Edge::Right && velocity.x > 0)
}

/// Whether a hit on `edge` turns the vertical component round.
pub open spec fn reflects_y(edge: Edge, velocity: Vector2) -> bool {
    (edge == Edge::Bottom && velocity.y < 0) || (edge == Edge::Top && velocity.y > 0)
}

/// The velocity after a hit on `edge`.
pub open spec fn reflected(edge: Edge, velocity: Vector2) -> Vector2 {
    Vector2 {
        x: if reflects_x(edge, velocity) {
            (-velocity.x) as i64
        } else {
            velocity.x
        },
        y: if reflects_y(edge, velocity) {
            (-velocity.y) as i64
        } else {
            velocity.y
        },
    }
}

/// The velocity after hits on `edges`, one after the other.
pub open spec fn reflected_through(edges: Seq<Edge>, velocity: Vector2) -> Vector2
    decreases edges.len(),
{
    if edges.len() == 0 {
        velocity
    } else {
        reflected(edges.last(), reflected_through(edges.drop_last(), velocity))
    }
}

/// The event that a hit gives rise to: a point where a wall was met on the
/// left or on the right, for the player of the other side; none otherwise.
pub open spec fn scored(kind: ColliderKind, edge: Edge) -> Option<ScoreEvent> {
    match (kind, edge) {
        (ColliderKind::Solid, Edge::Left) => Some(ScoreEvent::PointScored(PlayerId::User2)),
        (ColliderKind::Solid, Edge::Right) => Some(ScoreEvent::PointScored(PlayerId::User1)),
        _ => None,
    }
}

/// The queue after a hit.
pub open spec fn announced(queue: QueueModel, kind: ColliderKind, edge: Edge) -> QueueModel {
    match scored(kind, edge) {
        Some(event) => queue.send(event),
        None => queue,
    }
}

/// The velocity after a hit, and the event to send.
pub fn resolve_hit(kind: ColliderKind, edge: Edge, velocity: Vector2) -> (result: (
    Vector2,
    Option<ScoreEvent>,
))
    requires
        negatable(velocity),
    ensures
        result.0 == reflected(edge, velocity),
        result.1 == scored(kind, edge),
        squared_length(result.0) == squared_length(velocity),
{
    let event: Option<ScoreEvent> = match kind {
        ColliderKind::Solid => match edge {
            Edge::Left => Some(ScoreEvent::PointScored(PlayerId::User2)),
            Edge::Right => Some(ScoreEvent::PointScored(PlayerId::User1)),
            _ => None,
        },
        ColliderKind::Player => None,
    };
    let turn_x: bool = match edge {
        Edge::Left => velocity.x < 0,
        Edge::Right => velocity.x > 0,
        _ => false,
    };
    let turn_y: bool = match edge {
        Edge::Bottom => velocity.y < 0,
        Edge::Top => velocity.y > 0,
        _ => false,
    };
    let x: i64 = if turn_x {
        -velocity.x
    } else {
        velocity.x
    };
    let y: i64 = if turn_y {
        -velocity.y
    } else {
        velocity.y
    };
    proof {
        reflection_keeps_speed(edge, velocity);
    }
    (Vector2 { x, y }, event)
}

/// Whether the ball overlaps the collider at `index`.
pub open spec fn hits(ball: Ball, colliders: Seq<Collider>, index: int) -> bool {
    overlaps(ball.position, ball.size, colliders[index].center, colliders[index].size)
}

/// Whether the collider at `index` is the first that the ball overlaps.
pub open spec fn is_first_hit(ball: Ball, colliders: Seq<Collider>, index: int) -> bool {
    &&& 0 <= index < colliders.len()
    &&& hits(ball, colliders, index)
    &&& forall|j: int| 0 <= j < index ==> !hits(ball, colliders, j)
}

/// The edge on which the ball met the collider at `index`.
pub open spec fn edge_at(ball: Ball, colliders: Seq<Collider>, index: int) -> Edge {
    struck_edge(ball.position, ball.size, colliders[index].center, colliders[index].size)
}

/// The place of the first collider that the ball overlaps.
pub open spec fn first_hit(ball: Ball, colliders: Seq<Collider>) -> Option<int>
    decreases colliders.len(),
{
    if colliders.len() == 0 {
        None
    } else {
        match first_hit(ball, colliders.drop_last()) {
            Some(index) => Some(index),
            None => if hits(ball, colliders, colliders.len() - 1) {
                Some(colliders.len() - 1)
            } else {
                None
            },
        }
    }
}

/// The ball after the collision test of one frame.
pub open spec fn bounced(ball: Ball, colliders: Seq<Collider>) -> Ball {
    match first_hit(ball, colliders) {
        Some(index) => Ball {
            velocity: reflected(edge_at(ball, colliders, index), ball.velocity),
            ..ball
        },
        None => ball,
    }
}

/// The event that the collision test of one frame sends, if any.
pub open spec fn emitted(ball: Ball, colliders: Seq<Collider>) -> Option<ScoreEvent> {
    match first_hit(ball, colliders) {
        Some(index) => scored(colliders[index].kind, edge_at(ball, colliders, index)),
        None => None,
    }
}

/// `first_hit` names the first collider that the ball overlaps, and
/// none only where the ball overlaps none.
pub proof fn first_hit_is_first(ball: Ball, colliders: Seq<Collider>)
    ensures
        match first_hit(ball, colliders) {
            Some(index) => is_first_hit(ball, colliders, index),
            None => forall|j: int| 0 <= j < colliders.len() ==> !hits(ball, colliders, j),
        },
    decreases colliders.len(),
{
    if colliders.len() > 0 {
        let front = colliders.drop_last();
        first_hit_is_first(ball, front);
        assert(forall|j: int| 0 <= j < front.len() ==> hits(ball, front, j) == hits(ball, colliders, j));
    }
}

/// Only one collider can be the first that the ball overlaps.
pub proof fn first_hit_is_unique(ball: Ball, colliders: Seq<Collider>, index: int)
    requires
        is_first_hit(ball, colliders, index),
    ensures
        first_hit(ball, colliders) == Some(index),
{
    first_hit_is_first(ball, colliders);
    match first_hit(ball, colliders) {
        Some(other) => {
            if other < index {
                assert(hits(ball, colliders, other));
            } else if index < other {
                assert(hits(ball, colliders, index));
            }
        },
        None => {
            assert(hits(ball, colliders, index));
        },
    }
}

/// A ball meets a lone collider just where a ball in the collider's
/// place would meet a collider in the ball's place.
pub proof fn lone_collider_hit_is_symmetric(
    ball: Ball,
    collider: Collider,
    velocity: Vector2,
    kind: ColliderKind,
)
    ensures
        first_hit(ball, seq![collider]) is Some <==> first_hit(
            Ball { position: collider.center, velocity, size: collider.size },
            seq![Collider { kind, center: ball.position, size: ball.size }],
        ) is Some,
{
    let exchanged_ball = Ball { position: collider.center, velocity, size: collider.size };
    let exchanged = Collider { kind, center: ball.position, size: ball.size };
    first_hit_is_first(ball, seq![collider]);
    first_hit_is_first(exchanged_ball, seq![exchanged]);
    overlap_is_symmetric(ball.position, ball.size, collider.center, collider.size);
    assert(hits(ball, seq![collider], 0) == hits(exchanged_ball, seq![exchanged], 0));
}

/// Tests the ball against the colliders in order. The first one that it
/// overlaps turns the ball round and, where it is a wall to the left or
/// right, has one point announced; the others are not looked at. Returns
/// the place of that collider.
pub fn ball_collision_system(ball: &mut Ball, colliders: &Vec<Collider>, events: &mut ScoreEvents) -> (hit:
    Option<usize>)
    requires
        old(events).wf(),
        old(events)@.sent < usize::MAX,
        negatable(old(ball).velocity),
    ensures
        final(events).wf(),
        final(ball).position == old(ball).position,
        final(ball).size == old(ball).size,
        squared_length(final(ball).velocity) == squared_length(old(ball).velocity),
        negatable(final(ball).velocity),
        final(ball).velocity.x == old(ball).velocity.x || final(ball).velocity.x == -old(
            ball,
        ).velocity.x,
        final(ball).velocity.y == old(ball).velocity.y || final(ball).velocity.y == -old(
            ball,
        ).velocity.y,
        final(ball).velocity.x == old(ball).velocity.x || final(ball).velocity.y == old(
            ball,
        ).velocity.y,
        *final(ball) == bounced(*old(ball), colliders@),
        final(events)@ == (match emitted(*old(ball), colliders@) {
            Some(event) => old(events)@.send(event),
            None => old(events)@,
        }),
        final(events)@.retained() == old(events)@.retained() + (match emitted(
            *old(ball),
            colliders@,
        ) {
            Some(event) => seq![event],
            None => Seq::<ScoreEvent>::empty(),
        }),
        match hit {
            None => {
                &&& forall|j: int| 0 <= j < colliders@.len() ==> !hits(*old(ball), colliders@, j)
                &&& final(ball).velocity == old(ball).velocity
                &&& final(events)@ == old(events)@
            },
            Some(index) => {
                &&& is_first_hit(*old(ball), colliders@, index as int)
                &&& final(ball).velocity == reflected(
                    edge_at(*old(ball), colliders@, index as int),
                    old(ball).velocity,
                )
                &&& final(events)@ == announced(
                    old(events)@,
                    colliders@[index as int].kind,
                    edge_at(*old(ball), colliders@, index as int),
                )
            },
        },
{
    let mut index: usize = 0;
    while index < colliders.len()
        invariant
            index <= colliders@.len(),
            forall|j: int| 0 <= j < index ==> !hits(*ball, colliders@, j),
            *ball == *old(ball),
            *events == *old(events),
            events.wf(),
            events@.sent < usize::MAX,
            negatable(ball.velocity),
        decreases colliders@.len() - index,
    {
        let collider: Collider = colliders[index];
        match collide(ball.position, ball.size, collider.center, collider.size) {
            CollisionOutcome::Hit(edge) => {
                let (velocity, event) = resolve_hit(collider.kind, edge, ball.velocity);
                if let Some(e) = event {
                    events.send(e);
                }
                ball.velocity = velocity;
                proof {
                    first_hit_is_unique(*old(ball), colliders@, index as int);
                }
                return Some(index);
            },
            CollisionOutcome::Miss => {},
        }
        index = index + 1;
    }
    proof {
        first_hit_is_first(*old(ball), colliders@);
    }
    None
}

/// A reflection changes at most the sign of each component, so the speed stays.
pub proof fn reflection_keeps_speed(edge: Edge, velocity: Vector2)
    requires
        negatable(velocity),
    ensures
        reflected(edge, velocity).x == velocity.x || reflected(edge, velocity).x == -velocity.x,
        reflected(edge, velocity).y == velocity.y || reflected(edge, velocity).y == -velocity.y,
        squared_length(reflected(edge, velocity)) == squared_length(velocity),
        negatable(reflected(edge, velocity)),
{
    assert((-velocity.x) * (-velocity.x) == velocity.x * velocity.x) by (nonlinear_arith);
    assert((-velocity.y) * (-velocity.y) == velocity.y * velocity.y) by (nonlinear_arith);
}

/// A velocity that has the speed of the ball can change sign.
pub proof fn ball_speed_is_negatable(velocity: Vector2)
    requires
        has_ball_speed(velocity),
    ensures
        negatable(velocity),
        -BALL_SPEED - 1 <= velocity.x <= BALL_SPEED + 1,
        -BALL_SPEED - 1 <= velocity.y <= BALL_SPEED + 1,
{
    let x: int = velocity.x as int;
    let y: int = velocity.y as int;
    assert(-400_001 <= x <= 400_001 && -400_001 <= y <= 400_001) by (nonlinear_arith)
        requires
            x * x + y * y <= 400_001 * 400_001,
    {
        assert(y * y >= 0);
        assert(x * x >= 0);
        if x > 400_001 {
            assert(x * x > 400_001 * 400_001);
        }
        if x < -400_001 {
            assert(x * x > 400_001 * 400_001);
        }
        if y > 400_001 {
            assert(y * y > 400_001 * 400_001);
        }
        if y < -400_001 {
            assert(y * y > 400_001 * 400_001);
        }
    }
}

/// A ball that has the ball's speed has it after a reflection, too.
pub proof fn reflection_keeps_ball_speed(edge: Edge, velocity: Vector2)
    requires
        has_ball_speed(velocity),
    ensures
        has_ball_speed(reflected(edge, velocity)),
{
    ball_speed_is_negatable(velocity);
    reflection_keeps_speed(edge, velocity);
}

/// The speed is the same after any run of reflections.
pub proof fn reflections_keep_speed(edges: Seq<Edge>, velocity: Vector2)
    requires
        negatable(velocity),
    ensures
        squared_length(reflected_through(edges, velocity)) == squared_length(velocity),
        negatable(reflected_through(edges, velocity)),
    decreases edges.len(),
{
    if edges.len() > 0 {
        reflections_keep_speed(edges.drop_last(), velocity);
        reflection_keeps_speed(edges.last(), reflected_through(edges.drop_last(), velocity));
    }
}

/// A hit sends at most one event: exactly one where a wall was met on the
/// left or on the right, none at a paddle or at the top or bottom.
pub proof fn hit_sends_at_most_one(queue: QueueModel, kind: ColliderKind, edge: Edge)
    ensures
        kind == ColliderKind::Solid && (edge == Edge::Left || edge == Edge::Right) ==> announced(
            queue,
            kind,
            edge,
        ).sent == queue.sent + 1 && announced(queue, kind, edge).newer.len() == queue.newer.len() + 1,
        kind == ColliderKind::Player || edge == Edge::Top || edge == Edge::Bottom ==> announced(
            queue,
            kind,
            edge,
        ) == queue,
{
}

/// The collision test of one frame sends one event, a point, where the
/// first collider that the ball overlaps is a wall met on the left or on
/// the right, and no event in every other frame.
pub proof fn frame_sends_at_most_one(ball: Ball, colliders: Seq<Collider>)
    ensures
        emitted(ball, colliders) is Some <==> (exists|index: int| #[trigger]
            is_first_hit(ball, colliders, index) && colliders[index].kind == ColliderKind::Solid && (
            edge_at(ball, colliders, index) == Edge::Left || edge_at(ball, colliders, index)
                == Edge::Right)),
        emitted(ball, colliders) matches Some(event) ==> event is PointScored,
{
    first_hit_is_first(ball, colliders);
    if emitted(ball, colliders) is Some {
        let index = first_hit(ball, colliders)->0;
        assert(is_first_hit(ball, colliders, index));
    }
    if exists|index: int| #[trigger]
        is_first_hit(ball, colliders, index) && colliders[index].kind == ColliderKind::Solid && (
        edge_at(ball, colliders, index) == Edge::Left || edge_at(ball, colliders, index)
            == Edge::Right) {
        let index = choose|index: int| #[trigger]
            is_first_hit(ball, colliders, index) && colliders[index].kind == ColliderKind::Solid
                && (edge_at(ball, colliders, index) == Edge::Left || edge_at(
                ball,
                colliders,
                index,
            ) == Edge::Right);
        first_hit_is_unique(ball, colliders, index);
    }
}

} // verus!
