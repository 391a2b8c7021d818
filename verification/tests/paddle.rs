use pong::geometry::{advance, advance_clamped, Extent, Vector2, TICKS_PER_UNIT};
use pong::paddle::{
    key_direction, racket_movement_system, steer, KeyState, Paddle, PADDLE_MAX_Y, PADDLE_MIN_Y,
    PADDLE_SPEED,
};
use pong::player::PlayerId;

const U: i64 = TICKS_PER_UNIT;

fn paddle(player: PlayerId, keys: (u32, u32), y: i64) -> Paddle {
    Paddle {
        name: String::from("p"),
        score: 0,
        key_negative: keys.0,
        key_positive: keys.1,
        position: Vector2 { x: -380 * U, y },
        size: Extent { width: 30 * U as u64, height: 120 * U as u64 },
        player,
    }
}

#[test]
fn keys_give_the_direction() {
    assert_eq!(key_direction(false, false), 0);
    assert_eq!(key_direction(true, false), -1);
    assert_eq!(key_direction(false, true), 1);
    assert_eq!(key_direction(true, true), 0);
}

#[test]
fn paddle_moves_by_speed_times_time() {
    // 500 units per second for 16 ms: 8 units.
    assert_eq!(steer(10 * U, false, true, 16_000), 18 * U);
    assert_eq!(steer(10 * U, true, false, 16_000), 2 * U);
    assert_eq!(steer(10 * U, true, true, 16_000), 10 * U);
    assert_eq!(steer(10 * U, false, false, 16_000), 10 * U);
    assert_eq!(steer(0, false, true, 1), PADDLE_SPEED);
}

#[test]
fn paddle_stops_at_the_bounds() {
    assert_eq!(steer(175 * U, false, true, 16_000), PADDLE_MAX_Y);
    assert_eq!(steer(-175 * U, true, false, 16_000), PADDLE_MIN_Y);
    assert_eq!(steer(0, false, true, u64::MAX), PADDLE_MAX_Y);
    assert_eq!(steer(0, true, false, u64::MAX), PADDLE_MIN_Y);
    assert_eq!(steer(i64::MAX, false, true, u64::MAX), PADDLE_MAX_Y);
    assert_eq!(steer(i64::MIN, true, false, u64::MAX), PADDLE_MIN_Y);
    assert_eq!(steer(i64::MAX, false, false, 0), PADDLE_MAX_Y);
    assert_eq!(steer(i64::MIN, false, false, 0), PADDLE_MIN_Y);
}

#[test]
fn clamp_holds_for_any_bounds() {
    let cases = [(0i64, 7i64, 1000u64, -5i64, 5i64), (100, -3, 50, -20, 20), (i64::MIN, i64::MIN, u64::MAX, -1, 1), (i64::MAX, i64::MAX, u64::MAX, 3, 3), (4, 0, 0, 0, 10)];
    for (start, velocity, elapsed, lo, hi) in cases {
        let end = advance_clamped(start, velocity, elapsed, lo, hi);
        assert!(lo <= end && end <= hi);
    }
    assert_eq!(advance_clamped(0, 7, 1000, -5, 5), 5);
    assert_eq!(advance_clamped(0, -7, 1000, -5, 5), -5);
    assert_eq!(advance_clamped(4, 1, 3, 0, 10), 7);
    // Bounds the wrong way round: the lower one is returned.
    assert_eq!(advance_clamped(4, 1, 3, 9, 2), 9);
}

#[test]
fn advance_stops_at_the_ends_of_the_range() {
    assert_eq!(advance(5, 3, 4), 17);
    assert_eq!(advance(5, -3, 4), -7);
    assert_eq!(advance(i64::MAX, 1, 1), i64::MAX);
    assert_eq!(advance(i64::MIN, -1, 1), i64::MIN);
    assert_eq!(advance(i64::MIN, i64::MIN, u64::MAX), i64::MIN);
    assert_eq!(advance(i64::MAX, i64::MAX, u64::MAX), i64::MAX);
}

#[test]
fn key_state_knows_what_is_held() {
    let mut keys = KeyState::new();
    assert!(!keys.pressed(7));
    keys.press(7);
    keys.press(9);
    assert!(keys.pressed(7));
    assert!(keys.pressed(9));
    assert!(!keys.pressed(8));
    let keys = KeyState::from_codes(vec![1, 2, 2]);
    assert!(keys.pressed(2));
    assert!(!keys.pressed(3));
}

#[test]
fn each_paddle_follows_its_own_keys() {
    let mut paddles = vec![
        paddle(PlayerId::User1, (1, 2), 10 * U),
        paddle(PlayerId::User2, (3, 4), 10 * U),
        paddle(PlayerId::User2, (5, 2), 179 * U),
    ];
    let keys = KeyState::from_codes(vec![2, 3]);
    racket_movement_system(&mut paddles, &keys, 10_000);
    assert_eq!(paddles[0].position.y, 15 * U);
    assert_eq!(paddles[1].position.y, 5 * U);
    assert_eq!(paddles[2].position.y, 180 * U);
    assert_eq!(paddles[0].position.x, -380 * U);
    assert_eq!(paddles[0].score, 0);
    let mut none: Vec<Paddle> = Vec::new();
    racket_movement_system(&mut none, &keys, 10_000);
    assert!(none.is_empty());
}
