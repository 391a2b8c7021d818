use vstd::prelude::*;
use crate::geometry::{advance_clamped, clamped, displacement, Extent, Vector2};
use crate::player::PlayerId;

verus! {

/// The speed of a paddle whose key is held, in ticks per microsecond.
pub const PADDLE_SPEED: i64 = 500_000;

/// The lowest place of a paddle's centre.
pub const PADDLE_MIN_Y: i64 = -180_000_000_000;

/// The highest place of a paddle's centre.
pub const PADDLE_MAX_Y: i64 = 180_000_000_000;

/// A player's paddle.
#[derive(Debug)]
pub struct Paddle {
    /// The name shown on the scoreboard.
    pub name: String,
    pub score: u64,
    /// The code of the key that moves the paddle toward smaller y.
    pub key_negative: u32,
    /// The code of the key that moves the paddle toward larger y.
    pub key_positive: u32,
    pub position: Vector2,
    pub size: Extent,
    pub player: PlayerId,
}

/// The keys that are held down, by their codes.
#[derive(Debug)]
pub struct KeyState {
    held: Vec<u32>,
}

impl View for KeyState {
    type V = Set<u32>;

    closed spec fn view(&self) -> Set<u32> {
        self.held@.to_set()
    }
}

impl KeyState {
    /// No key is held.
    pub fn new() -> (keys: KeyState)
        ensures
            keys@ == Set::<u32>::empty(),
    {
        let keys = KeyState { held: Vec::new() };
        assert(keys.held@.to_set() =~= Set::<u32>::empty());
        keys
    }

    /// The state in which just the keys of `codes` are held.
    pub fn from_codes(codes: Vec<u32>) -> (keys: KeyState)
        ensures
            keys@ == codes@.to_set(),
    {
        KeyState { held: codes }
    }

    /// Marks a key as held.
    pub fn press(&mut self, code: u32)
        ensures
            final(self)@ == old(self)@.insert(code),
    {
        self.held.push(code);
        assert(self.held@.to_set() =~= old(self).held@.to_set().insert(code)) by {
            assert forall|c: u32| self.held@.contains(c) <==> old(self).held@.contains(c) || c
                == code by {
                if old(self).held@.contains(c) {
                    let i = choose|i: int| 0 <= i < old(self).held@.len() && old(self).held@[i] == c;
                    assert(self.held@[i] == c);
                }
                if c == code {
                    assert(self.held@[self.held@.len() - 1] == c);
                }
            }
        }
    }

    /// Whether the key with this code is held.
    pub fn pressed(&self, code: u32) -> (held: bool)
        ensures
            held == self@.contains(code),
    {
        let mut i: usize = 0;
        while i < self.held.len()
            invariant
                i <= self.held@.len(),
                forall|j: int| 0 <= j < i ==> self.held@[j] != code,
            decreases self.held@.len() - i,
        {
            if self.held[i] == code {
                assert(self.held@.contains(code));
                return true;
            }
            i = i + 1;
        }
        false
    }
}

/// The direction in which a paddle moves: -1, 0 or +1. Both keys held cancel.
pub open spec fn net_direction(negative_held: bool, positive_held: bool) -> int {
    (if positive_held {
        1int
    } else {
        0int
    }) - (if negative_held {
        1int
    } else {
        0int
    })
}

/// Where a paddle's centre is, vertically, after `elapsed` with these keys held.
pub open spec fn steered(y: i64, negative_held: bool, positive_held: bool, elapsed: u64) -> int {
    clamped(
        y + displacement(net_direction(negative_held, positive_held) * PADDLE_SPEED, elapsed as int),
        PADDLE_MIN_Y as int,
        PADDLE_MAX_Y as int,
    )
}

/// The paddle after `elapsed` with the keys of `keys` held.
pub open spec fn paddle_moved(paddle: Paddle, keys: Set<u32>, elapsed: u64) -> Paddle {
    Paddle {
        position: Vector2 {
            x: paddle.position.x,
            y: steered(
                paddle.position.y,
                keys.contains(paddle.key_negative),
                keys.contains(paddle.key_positive),
                elapsed,
            ) as i64,
        },
        ..paddle
    }
}

/// Computes the direction from the state of a paddle's two keys.
pub fn key_direction(negative_held: bool, positive_held: bool) -> (direction: i64)
    ensures
        direction == net_direction(negative_held, positive_held),
{
    let mut direction: i64 = 0;
    if negative_held {
        direction = direction - 1;
    }
    if positive_held {
        direction = direction + 1;
    }
    direction
}

/// Moves one paddle's centre for the keys held, and keeps it on the playfield.
pub fn steer(y: i64, negative_held: bool, positive_held: bool, elapsed: u64) -> (end: i64)
    ensures
        end == steered(y, negative_held, positive_held, elapsed),
        PADDLE_MIN_Y <= end <= PADDLE_MAX_Y,
{
    let velocity: i64 = key_direction(negative_held, positive_held) * PADDLE_SPEED;
    advance_clamped(y, velocity, elapsed, PADDLE_MIN_Y, PADDLE_MAX_Y)
}

/// Moves every paddle for the keys held during `elapsed` microseconds.
pub fn racket_movement_system(paddles: &mut Vec<Paddle>, keys: &KeyState, elapsed: u64)
    ensures
        final(paddles)@.len() == old(paddles)@.len(),
        forall|i: int|
            0 <= i < old(paddles)@.len() ==> final(paddles)@[i] == paddle_moved(
                old(paddles)@[i],
                keys@,
                elapsed,
            ),
        forall|i: int|
            0 <= i < old(paddles)@.len() ==> PADDLE_MIN_Y <= (#[trigger] final(paddles)@[i]).position.y
                <= PADDLE_MAX_Y,
{
    let mut i: usize = 0;
    while i < paddles.len()
        invariant
            i <= paddles@.len(),
            paddles@.len() == old(paddles)@.len(),
            forall|j: int|
                0 <= j < i ==> paddles@[j] == paddle_moved(old(paddles)@[j], keys@, elapsed),
            forall|j: int| i <= j < paddles@.len() ==> paddles@[j] == old(paddles)@[j],
        decreases paddles@.len() - i,
    {
        let negative_held: bool = keys.pressed(paddles[i].key_negative);
        let positive_held: bool = keys.pressed(paddles[i].key_positive);
        let y: i64 = steer(paddles[i].position.y, negative_held, positive_held, elapsed);
        paddles[i].position.y = y;
        i = i + 1;
    }
}

} // verus!
