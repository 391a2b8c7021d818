use pong::ball::{ball_collision_system, Ball, Collider, ColliderKind, BALL_SPEED};
use pong::collision::{collide, CollisionOutcome, Edge};
use pong::events::{ScoreEvent, ScoreEvents, ScoreReader};
use pong::geometry::{Extent, Vector2, TICKS_PER_UNIT};
use pong::paddle::Paddle;
use pong::player::PlayerId;
use pong::scoring::{apply_event, award_point, event_listener_system, MATCH_POINT};
use pong::serve::{
    integer_sqrt, scale_to_speed, serve, serve_direction, settle_draws, SERVE_X, SERVE_Y,
};

const U: i64 = TICKS_PER_UNIT;

fn paddle(player: PlayerId, score: u64) -> Paddle {
    Paddle {
        name: String::from("p"),
        score,
        key_negative: 0,
        key_positive: 1,
        position: Vector2 { x: 380 * U, y: 10 * U },
        size: Extent { width: 30 * U as u64, height: 120 * U as u64 },
        player,
    }
}

fn scores(paddles: &Vec<Paddle>) -> Vec<u64> {
    paddles.iter().map(|p| p.score).collect()
}

fn ball() -> Ball {
    Ball {
        position: Vector2 { x: -431 * U, y: 0 },
        velocity: Vector2 { x: -400_000, y: 0 },
        size: Extent { width: 30 * U as u64, height: 30 * U as u64 },
    }
}

fn has_ball_speed(v: Vector2) -> bool {
    let s = BALL_SPEED as i128;
    let squared = (v.x as i128) * (v.x as i128) + (v.y as i128) * (v.y as i128);
    (s - 1) * (s - 1) <= squared && squared <= (s + 1) * (s + 1)
}

#[test]
fn integer_sqrt_rounds_down() {
    assert_eq!(integer_sqrt(0), 0);
    assert_eq!(integer_sqrt(1), 1);
    assert_eq!(integer_sqrt(3), 1);
    assert_eq!(integer_sqrt(4), 2);
    assert_eq!(integer_sqrt(24), 4);
    assert_eq!(integer_sqrt(25), 5);
    assert_eq!(integer_sqrt(80_000_000_000), 282_842);
    assert_eq!(integer_sqrt(160_000_000_000), 400_000);
    assert_eq!(integer_sqrt(159_999_999_999), 399_999);
    assert_eq!(integer_sqrt(u64::MAX), 4_294_967_295);
    assert_eq!(integer_sqrt(4_294_967_295 * 4_294_967_295), 4_294_967_295);
    assert_eq!(integer_sqrt(4_294_967_295 * 4_294_967_295 - 1), 4_294_967_294);
}

#[test]
fn components_are_scaled_to_the_ball_speed() {
    assert_eq!(scale_to_speed(3, 4), 240_000);
    assert_eq!(scale_to_speed(4, 3), 320_000);
    assert_eq!(scale_to_speed(1, 1), 282_843);
    assert_eq!(scale_to_speed(1, 0), 400_000);
    assert_eq!(scale_to_speed(0, 1), 0);
    assert_eq!(scale_to_speed(0, 0), 0);
    assert_eq!(scale_to_speed(u32::MAX, u32::MAX), 282_843);
    assert_eq!(scale_to_speed(u32::MAX, 0), 400_000);
    assert_eq!(scale_to_speed(u32::MAX, 1), 400_000);
    assert_eq!(scale_to_speed(1, u32::MAX), 0);
    assert_eq!(scale_to_speed(5, 12), 153_846);
    assert_eq!(scale_to_speed(12, 5), 369_231);
    assert_eq!(scale_to_speed(7, 24), 112_000);
    assert_eq!(scale_to_speed(24, 7), 384_000);
}

#[test]
fn components_are_rounded_to_the_nearest() {
    // 400000 / sqrt(5) = 178885.438..., twice that 357770.876...
    assert_eq!(scale_to_speed(1, 2), 178_885);
    assert_eq!(scale_to_speed(2, 1), 357_771);
    // 400000 / sqrt(10) = 126491.106..., three times that 379473.319...
    assert_eq!(scale_to_speed(1, 3), 126_491);
    assert_eq!(scale_to_speed(3, 1), 379_473);
    // 400000 / sqrt(2) = 282842.712...
    assert_eq!(scale_to_speed(1_000_000, 1_000_000), 282_843);
    // Just under a half, and just over.
    assert_eq!(scale_to_speed(1, 800_001), 0);
    assert_eq!(scale_to_speed(1, 799_999), 1);
}

#[test]
fn draws_without_direction_become_the_diagonal() {
    assert_eq!(settle_draws(0, 0), (1, 1));
    assert_eq!(settle_draws(0, 1), (0, 1));
    assert_eq!(settle_draws(1, 0), (1, 0));
    assert_eq!(settle_draws(7, 9), (7, 9));
    assert_eq!(settle_draws(u32::MAX, 0), (u32::MAX, 0));
    let (x, y) = settle_draws(0, 0);
    assert!(has_ball_speed(serve_direction(PlayerId::User1, x, y)));
    assert_eq!(serve_direction(PlayerId::User2, x, y), Vector2 { x: 282_843, y: 282_843 });
}

#[test]
fn serve_points_away_from_user1_when_user1_scored() {
    assert_eq!(serve_direction(PlayerId::User2, 3, 4), Vector2 { x: 240_000, y: 320_000 });
    assert_eq!(serve_direction(PlayerId::User1, 3, 4), Vector2 { x: -240_000, y: -320_000 });
    assert_eq!(serve_direction(PlayerId::User1, 0, 9), Vector2 { x: 0, y: -400_000 });
    assert_eq!(serve_direction(PlayerId::User2, 9, 0), Vector2 { x: 400_000, y: 0 });
    assert_eq!(serve_direction(PlayerId::User1, 0, 0), Vector2 { x: 0, y: 0 });
    assert_eq!(serve_direction(PlayerId::User2, 0, 0), Vector2 { x: 0, y: 0 });
}

#[test]
fn serve_has_the_ball_speed() {
    let draws = [(3u32, 4u32), (1, 1), (1, 0), (0, 1), (5, 12), (u32::MAX, u32::MAX), (u32::MAX, 1), (1, u32::MAX), (123_456_789, 987_654_321), (7, 4_000_000_000)];
    for (x, y) in draws {
        for scorer in [PlayerId::User1, PlayerId::User2] {
            let v = serve_direction(scorer, x, y);
            assert!(has_ball_speed(v));
            if scorer == PlayerId::User1 {
                assert!(v.x <= 0 && v.y <= 0);
            } else {
                assert!(v.x >= 0 && v.y >= 0);
            }
        }
    }
    let v = serve_direction(PlayerId::User2, 3, 4);
    assert_eq!(v.x * v.x + v.y * v.y, BALL_SPEED * BALL_SPEED);
}

#[test]
fn serve_puts_the_ball_at_the_serve_point() {
    let mut b = ball();
    serve(&mut b, PlayerId::User1, 4, 3);
    assert_eq!(b.position, Vector2 { x: 0, y: 50 * U });
    assert_eq!(b.position, Vector2 { x: SERVE_X, y: SERVE_Y });
    assert_eq!(b.velocity, Vector2 { x: -320_000, y: -240_000 });
    assert_eq!(b.size, ball().size);
}

#[test]
fn point_goes_to_the_paddles_of_the_player() {
    let mut paddles = vec![paddle(PlayerId::User1, 0), paddle(PlayerId::User2, 5), paddle(PlayerId::User1, 7)];
    assert!(!award_point(&mut paddles, PlayerId::User1));
    assert_eq!(scores(&paddles), vec![1, 5, 8]);
    assert!(!award_point(&mut paddles, PlayerId::User2));
    assert_eq!(scores(&paddles), vec![1, 6, 8]);
    assert_eq!(paddles[0].position, Vector2 { x: 380 * U, y: 10 * U });
    assert_eq!(paddles[0].name, "p");
    let mut none: Vec<Paddle> = Vec::new();
    assert!(!award_point(&mut none, PlayerId::User1));
}

#[test]
fn third_point_reaches_the_match_point() {
    assert_eq!(MATCH_POINT, 3);
    let mut paddles = vec![paddle(PlayerId::User1, 0), paddle(PlayerId::User2, 3)];
    assert!(!award_point(&mut paddles, PlayerId::User1));
    assert!(!award_point(&mut paddles, PlayerId::User1));
    assert!(award_point(&mut paddles, PlayerId::User1));
    assert_eq!(scores(&paddles), vec![3, 3]);
    // Nothing ends: the next point counts as any other.
    assert!(!award_point(&mut paddles, PlayerId::User1));
    assert_eq!(scores(&paddles), vec![4, 3]);
    assert!(!award_point(&mut paddles, PlayerId::User2));
    assert_eq!(scores(&paddles), vec![4, 4]);
}

#[test]
fn score_stops_at_the_end_of_the_counter() {
    let mut paddles = vec![paddle(PlayerId::User2, u64::MAX - 1)];
    assert!(!award_point(&mut paddles, PlayerId::User2));
    assert_eq!(scores(&paddles), vec![u64::MAX]);
    assert!(!award_point(&mut paddles, PlayerId::User2));
    assert_eq!(scores(&paddles), vec![u64::MAX]);
}

#[test]
fn point_for_user1_is_counted_and_the_ball_served() {
    let mut paddles = vec![paddle(PlayerId::User1, 1), paddle(PlayerId::User2, 1)];
    let mut b = ball();
    let cap = apply_event(&mut paddles, &mut b, ScoreEvent::PointScored(PlayerId::User1), 3, 4);
    assert!(!cap);
    assert_eq!(scores(&paddles), vec![2, 1]);
    assert_eq!(b.position, Vector2 { x: 0, y: 50 * U });
    assert_eq!(b.velocity, Vector2 { x: -240_000, y: -320_000 });
    assert_eq!(b.velocity.x * b.velocity.x + b.velocity.y * b.velocity.y, 400_000 * 400_000);
    assert_eq!(b.size, ball().size);
    let cap = apply_event(&mut paddles, &mut b, ScoreEvent::PointScored(PlayerId::User1), 1, 1);
    assert!(cap);
    assert_eq!(scores(&paddles), vec![3, 1]);
    assert_eq!(b.velocity, Vector2 { x: -282_843, y: -282_843 });
}

#[test]
fn match_over_changes_nothing() {
    let mut paddles = vec![paddle(PlayerId::User1, 2), paddle(PlayerId::User2, 3)];
    let mut b = ball();
    let cap = apply_event(&mut paddles, &mut b, ScoreEvent::MatchOver, 3, 4);
    assert!(!cap);
    assert_eq!(scores(&paddles), vec![2, 3]);
    assert_eq!(b, ball());
}

#[test]
fn listener_carries_out_each_event_once() {
    let mut events = ScoreEvents::new();
    let mut reader = ScoreReader::new();
    let mut paddles = vec![paddle(PlayerId::User1, 0), paddle(PlayerId::User2, 0)];
    let mut b = ball();
    event_listener_system(&mut reader, &events, &mut paddles, &mut b);
    assert_eq!(scores(&paddles), vec![0, 0]);
    assert_eq!(b, ball());
    events.send(ScoreEvent::PointScored(PlayerId::User2));
    events.send(ScoreEvent::MatchOver);
    events.send(ScoreEvent::PointScored(PlayerId::User1));
    events.send(ScoreEvent::PointScored(PlayerId::User1));
    events.send(ScoreEvent::MatchOver);
    event_listener_system(&mut reader, &events, &mut paddles, &mut b);
    assert_eq!(scores(&paddles), vec![2, 1]);
    assert_eq!(b.position, Vector2 { x: 0, y: 50 * U });
    assert_eq!(b.size, ball().size);
    assert!(b.velocity.x <= 0 && b.velocity.y <= 0);
    assert!(has_ball_speed(b.velocity));
    let served = b;
    event_listener_system(&mut reader, &events, &mut paddles, &mut b);
    assert_eq!(scores(&paddles), vec![2, 1]);
    assert_eq!(b, served);
    events.update();
    events.send(ScoreEvent::MatchOver);
    event_listener_system(&mut reader, &events, &mut paddles, &mut b);
    assert_eq!(scores(&paddles), vec![2, 1]);
    assert_eq!(b, served);
}

#[test]
fn serves_differ_from_draw_to_draw() {
    let mut events = ScoreEvents::new();
    let mut reader = ScoreReader::new();
    let mut paddles = vec![paddle(PlayerId::User2, 0)];
    let mut b = ball();
    let mut seen: Vec<Vector2> = Vec::new();
    for _ in 0..16 {
        events.send(ScoreEvent::PointScored(PlayerId::User2));
        event_listener_system(&mut reader, &events, &mut paddles, &mut b);
        assert!(b.velocity.x >= 0 && b.velocity.y >= 0);
        assert!(has_ball_speed(b.velocity));
        if !seen.contains(&b.velocity) {
            seen.push(b.velocity);
        }
    }
    assert_eq!(scores(&paddles), vec![16]);
    assert!(seen.len() > 1);
}

#[test]
fn ball_leaving_on_the_left_scores_for_user2() {
    let wall = Collider {
        kind: ColliderKind::Solid,
        center: Vector2 { x: -450 * U, y: 0 },
        size: Extent { width: 10 * U as u64, height: 610 * U as u64 },
    };
    let mut b = ball();
    assert_eq!(collide(b.position, b.size, wall.center, wall.size), CollisionOutcome::Hit(Edge::Left));
    let mut events = ScoreEvents::new();
    let mut reader = ScoreReader::new();
    let mut peek = ScoreReader::new();
    assert_eq!(ball_collision_system(&mut b, &vec![wall], &mut events), Some(0));
    assert_eq!(peek.take(&events), vec![ScoreEvent::PointScored(PlayerId::User2)]);
    assert_eq!(b.velocity, Vector2 { x: 400_000, y: 0 });
    let mut paddles = vec![paddle(PlayerId::User1, 0), paddle(PlayerId::User2, 0)];
    event_listener_system(&mut reader, &events, &mut paddles, &mut b);
    assert_eq!(scores(&paddles), vec![0, 1]);
    assert_eq!(b.position, Vector2 { x: 0, y: 50 * U });
    assert!(b.velocity.x >= 0 && b.velocity.y >= 0);
    assert!(has_ball_speed(b.velocity));
}
