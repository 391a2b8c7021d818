use vstd::prelude::*;
use vstd::string::StringExecFns;
use crate::ball::{
    ball_collision_system, ball_movement_system, ball_speed_is_negatable, bounced, edge_at,
    emitted, first_hit, has_ball_speed, is_ball_speed, moved, reflection_keeps_ball_speed, Ball,
    Collider, ColliderKind, BALL_SPEED,
};
use crate::events::{QueueModel, ScoreEvent, ScoreEvents, ScoreReader};
use crate::geometry::{Extent, Vector2};
use crate::paddle::{
    paddle_moved, racket_movement_system, KeyState, Paddle, PADDLE_MAX_Y, PADDLE_MIN_Y,
};
use crate::player::PlayerId;
use crate::scoreboard::{label, lone_paddle_is_shown, scoreboard_system, ScoreDisplay};
use crate::scoring::{after_event, after_events, event_listener_system, last_scorer};
use crate::serve::{
    floor_sqrt_unique, is_floor_sqrt, scale_to_speed, scaled, serve_speed, serve_velocity, served,
};

verus! {

/// How far from the middle the paddles stand, horizontally.
pub const PADDLE_X: i64 = 380_000_000_000;

/// Where the paddles stand at the start, vertically.
pub const PADDLE_START_Y: i64 = 10_000_000_000;

/// Width of a paddle.
pub const PADDLE_WIDTH: u64 = 30_000_000_000;

/// Height of a paddle.
pub const PADDLE_HEIGHT: u64 = 120_000_000_000;

/// The side of the square ball.
pub const BALL_SIDE: u64 = 30_000_000_000;

/// Where the ball stands at the start, vertically.
pub const BALL_START_Y: i64 = -50_000_000_000;

/// Each component of the ball's velocity at the start, which points
/// half left, half up: `BALL_SPEED` over the square root of two, to the
/// nearest whole number.
pub const BALL_START_COMPONENT: i64 = 282_843;

/// Width of the playfield, wall centre to wall centre.
pub const FIELD_WIDTH: i64 = 900_000_000_000;

/// Height of the playfield, wall centre to wall centre.
pub const FIELD_HEIGHT: i64 = 600_000_000_000;

/// Thickness of a wall.
pub const WALL_THICKNESS: u64 = 10_000_000_000;

/// The whole state of a match.
pub struct Game {
    /// The paddle of `User1`, then that of `User2`.
    pub paddles: Vec<Paddle>,
    pub ball: Ball,
    /// The walls: left, right, bottom, top.
    pub walls: Vec<Collider>,
    /// The display of `User1`, then that of `User2`.
    pub displays: Vec<ScoreDisplay>,
    pub events: ScoreEvents,
    pub reader: ScoreReader,
}

/// A paddle as an obstacle.
pub open spec fn paddle_collider(paddle: Paddle) -> Collider {
    Collider { kind: ColliderKind::Player, center: paddle.position, size: paddle.size }
}

/// The obstacles of a frame: the paddles in order, then the walls.
pub open spec fn colliders_of(paddles: Seq<Paddle>, walls: Seq<Collider>) -> Seq<Collider> {
    Seq::new(paddles.len(), |i: int| paddle_collider(paddles[i])) + walls
}

/// The paddles after the paddle controller ran.
pub open spec fn steered_paddles(paddles: Seq<Paddle>, keys: Set<u32>, elapsed: u64) -> Seq<Paddle> {
    Seq::new(paddles.len(), |i: int| paddle_moved(paddles[i], keys, elapsed))
}

/// A wall of the given place and size.
pub open spec fn wall(x: int, y: int, width: int, height: int) -> Collider {
    Collider {
        kind: ColliderKind::Solid,
        center: Vector2 { x: x as i64, y: y as i64 },
        size: Extent { width: width as u64, height: height as u64 },
    }
}

/// The four walls round the playfield.
pub open spec fn field_walls() -> Seq<Collider> {
    seq![
        wall(-FIELD_WIDTH / 2, 0, WALL_THICKNESS as int, FIELD_HEIGHT + WALL_THICKNESS),
        wall(FIELD_WIDTH / 2, 0, WALL_THICKNESS as int, FIELD_HEIGHT + WALL_THICKNESS),
        wall(0, -FIELD_HEIGHT / 2, FIELD_WIDTH + WALL_THICKNESS, WALL_THICKNESS as int),
        wall(0, FIELD_HEIGHT / 2, FIELD_WIDTH + WALL_THICKNESS, WALL_THICKNESS as int),
    ]
}

/// A paddle as it stands at the start.
pub open spec fn is_fresh_paddle(
    paddle: Paddle,
    player: PlayerId,
    name: Seq<char>,
    keys: (u32, u32),
    x: int,
) -> bool {
    &&& paddle.player == player
    &&& paddle.name@ == name
    &&& paddle.score == 0
    &&& paddle.key_negative == keys.0
    &&& paddle.key_positive == keys.1
    &&& paddle.position == Vector2 { x: x as i64, y: PADDLE_START_Y }
    &&& paddle.size == Extent { width: PADDLE_WIDTH, height: PADDLE_HEIGHT }
}

impl Game {
    /// What of `wf` can be tested on the fields: each player has one
    /// paddle and one display, the paddles are on the playfield, and
    /// the ball has its speed.
    pub open spec fn sound(&self) -> bool {
        &&& self.paddles@.len() == 2
        &&& self.paddles@[0].player == PlayerId::User1
        &&& self.paddles@[1].player == PlayerId::User2
        &&& forall|i: int|
            0 <= i < 2 ==> PADDLE_MIN_Y <= (#[trigger] self.paddles@[i]).position.y <= PADDLE_MAX_Y
        &&& self.displays@.len() == 2
        &&& self.displays@[0].player == PlayerId::User1
        &&& self.displays@[1].player == PlayerId::User2
        &&& has_ball_speed(self.ball.velocity)
    }

    /// The fields are sound, the queue is in order, and the listener
    /// has seen every event sent.
    pub open spec fn wf(&self) -> bool {
        &&& self.sound()
        &&& self.events.wf()
        &&& self.events@.wf()
        &&& self.reader@ == self.events@.sent
    }

    /// Tests what of `wf` can be tested on the fields.
    pub fn is_sound(&self) -> (ok: bool)
        ensures
            ok == self.sound(),
    {
        if self.paddles.len() != 2 || self.displays.len() != 2 {
            return false;
        }
        let on_field: bool = PADDLE_MIN_Y <= self.paddles[0].position.y && self.paddles[0].position.y
            <= PADDLE_MAX_Y && PADDLE_MIN_Y <= self.paddles[1].position.y
            && self.paddles[1].position.y <= PADDLE_MAX_Y;
        on_field && self.paddles[0].player == PlayerId::User1 && self.paddles[1].player
            == PlayerId::User2 && self.displays[0].player == PlayerId::User1
            && self.displays[1].player == PlayerId::User2 && is_ball_speed(self.ball.velocity)
    }

    /// The ball after the ball mover ran.
    pub open spec fn flown_ball(&self, elapsed: u64) -> Ball {
        Ball { position: moved(self.ball.position, self.ball.velocity, elapsed), ..self.ball }
    }

    /// The obstacles that the ball is tested against in a frame.
    pub open spec fn frame_colliders(&self, keys: Set<u32>, elapsed: u64) -> Seq<Collider> {
        colliders_of(steered_paddles(self.paddles@, keys, elapsed), self.walls@)
    }

    /// The event of a frame, if the frame has one.
    pub open spec fn frame_event(&self, keys: Set<u32>, elapsed: u64) -> Option<ScoreEvent> {
        emitted(self.flown_ball(elapsed), self.frame_colliders(keys, elapsed))
    }

    /// The start of a match: the paddles left and right, the ball below
    /// the middle and moving up and to the left, the four walls, both
    /// displays reading "Score:", no event.
    pub fn new(name_1: String, keys_1: (u32, u32), name_2: String, keys_2: (u32, u32)) -> (game: Game)
        ensures
            game.wf(),
            is_fresh_paddle(game.paddles@[0], PlayerId::User1, name_1@, keys_1, -PADDLE_X),
            is_fresh_paddle(game.paddles@[1], PlayerId::User2, name_2@, keys_2, PADDLE_X as int),
            game.ball.position == (Vector2 { x: 0, y: BALL_START_Y }),
            game.ball.velocity.x == -BALL_START_COMPONENT,
            game.ball.velocity.y == BALL_START_COMPONENT,
            game.ball.size == (Extent { width: BALL_SIDE, height: BALL_SIDE }),
            BALL_START_COMPONENT == scaled(1, 1),
            game.walls@ == field_walls(),
            game.displays@[0].text@ == "Score:"@,
            game.displays@[1].text@ == "Score:"@,
            game.events@ == QueueModel::empty(),
    {
        let size = Extent { width: PADDLE_WIDTH, height: PADDLE_HEIGHT };
        let mut paddles: Vec<Paddle> = Vec::new();
        paddles.push(
            Paddle {
                name: name_1,
                score: 0,
                key_negative: keys_1.0,
                key_positive: keys_1.1,
                position: Vector2 { x: -PADDLE_X, y: PADDLE_START_Y },
                size,
                player: PlayerId::User1,
            },
        );
        paddles.push(
            Paddle {
                name: name_2,
                score: 0,
                key_negative: keys_2.0,
                key_positive: keys_2.1,
                position: Vector2 { x: PADDLE_X, y: PADDLE_START_Y },
                size,
                player: PlayerId::User2,
            },
        );
        let component: i64 = scale_to_speed(1, 1);
        proof {
            start_component_is_scaled();
            start_velocity_has_ball_speed();
        }
        let ball = Ball {
            position: Vector2 { x: 0, y: BALL_START_Y },
            velocity: Vector2 { x: -component, y: component },
            size: Extent { width: BALL_SIDE, height: BALL_SIDE },
        };
        let upright = Extent { width: WALL_THICKNESS, height: FIELD_HEIGHT as u64 + WALL_THICKNESS };
        let level = Extent { width: FIELD_WIDTH as u64 + WALL_THICKNESS, height: WALL_THICKNESS };
        let mut walls: Vec<Collider> = Vec::new();
        walls.push(
            Collider {
                kind: ColliderKind::Solid,
                center: Vector2 { x: -FIELD_WIDTH / 2, y: 0 },
                size: upright,
            },
        );
        walls.push(
            Collider {
                kind: ColliderKind::Solid,
                center: Vector2 { x: FIELD_WIDTH / 2, y: 0 },
                size: upright,
            },
        );
        walls.push(
            Collider {
                kind: ColliderKind::Solid,
                center: Vector2 { x: 0, y: -FIELD_HEIGHT / 2 },
                size: level,
            },
        );
        walls.push(
            Collider {
                kind: ColliderKind::Solid,
                center: Vector2 { x: 0, y: FIELD_HEIGHT / 2 },
                size: level,
            },
        );
        assert(walls@ =~= field_walls());
        let mut displays: Vec<ScoreDisplay> = Vec::new();
        displays.push(ScoreDisplay { player: PlayerId::User1, text: String::from_str("Score:") });
        displays.push(ScoreDisplay { player: PlayerId::User2, text: String::from_str("Score:") });
        let events = ScoreEvents::new();
        let reader = ScoreReader::new();
        Game { paddles, ball, walls, displays, events, reader }
    }

    /// The obstacles as they stand: the paddles in order, then the walls.
    pub fn colliders(&self) -> (colliders: Vec<Collider>)
        ensures
            colliders@ == colliders_of(self.paddles@, self.walls@),
    {
        let mut colliders: Vec<Collider> = Vec::new();
        let mut i: usize = 0;
        while i < self.paddles.len()
            invariant
                i <= self.paddles@.len(),
                colliders@ == Seq::new(i as nat, |k: int| paddle_collider(self.paddles@[k])),
            decreases self.paddles@.len() - i,
        {
            colliders.push(
                Collider {
                    kind: ColliderKind::Player,
                    center: self.paddles[i].position,
                    size: self.paddles[i].size,
                },
            );
            i = i + 1;
            assert(colliders@ =~= Seq::new(i as nat, |k: int| paddle_collider(self.paddles@[k])));
        }
        let ghost front = colliders@;
        let mut j: usize = 0;
        while j < self.walls.len()
            invariant
                j <= self.walls@.len(),
                front == Seq::new(self.paddles@.len(), |k: int| paddle_collider(self.paddles@[k])),
                colliders@ == front + self.walls@.take(j as int),
            decreases self.walls@.len() - j,
        {
            colliders.push(self.walls[j]);
            j = j + 1;
            assert(colliders@ =~= front + self.walls@.take(j as int));
        }
        assert(self.walls@.take(j as int) =~= self.walls@);
        colliders
    }

    /// One frame: a frame boundary for the queue, then the paddles, the
    /// ball, the collision test, the listener and the scoreboard, in
    /// this order.
    pub fn step(&mut self, keys: &KeyState, elapsed: u64)
        requires
            old(self).wf(),
            old(self).events@.sent < usize::MAX,
        ensures
            final(self).wf(),
            final(self).walls == old(self).walls,
            final(self).paddles@ == (match old(self).frame_event(keys@, elapsed) {
                Some(event) => after_event(steered_paddles(old(self).paddles@, keys@, elapsed), event),
                None => steered_paddles(old(self).paddles@, keys@, elapsed),
            }),
            match old(self).frame_event(keys@, elapsed) {
                Some(ScoreEvent::PointScored(scorer)) => served(
                    final(self).ball,
                    old(self).ball,
                    scorer,
                ),
                _ => final(self).ball == bounced(
                    old(self).flown_ball(elapsed),
                    old(self).frame_colliders(keys@, elapsed),
                ),
            },
            final(self).events@ == (match old(self).frame_event(keys@, elapsed) {
                Some(event) => old(self).events@.update().send(event),
                None => old(self).events@.update(),
            }),
            forall|i: int|
                0 <= i < 2 ==> (#[trigger] final(self).displays@[i]).text@ == label(
                    final(self).paddles@[i].name@,
                    final(self).paddles@[i].score as nat,
                ),
    {
        self.events.update();
        racket_movement_system(&mut self.paddles, keys, elapsed);
        ball_movement_system(&mut self.ball, elapsed);
        let colliders: Vec<Collider> = self.colliders();
        let ghost steered = self.paddles@;
        let ghost flown = self.ball;
        proof {
            assert(steered =~= steered_paddles(old(self).paddles@, keys@, elapsed));
            assert(flown == old(self).flown_ball(elapsed));
            assert(colliders@ == old(self).frame_colliders(keys@, elapsed));
            old(self).events.wf_view();
            ball_speed_is_negatable(flown.velocity);
            if let Some(index) = first_hit(flown, colliders@) {
                reflection_keeps_ball_speed(edge_at(flown, colliders@, index), flown.velocity);
            }
        }
        let _ = ball_collision_system(&mut self.ball, &colliders, &mut self.events);
        let ghost event = emitted(flown, colliders@);
        let ghost unread = self.events@.unread(self.reader@);
        proof {
            let fresh: Seq<ScoreEvent> = match event {
                Some(e) => seq![e],
                None => Seq::empty(),
            };
            assert(unread =~= fresh);
            if event is Some {
                assert(fresh.drop_last() =~= Seq::<ScoreEvent>::empty());
            }
            assert(after_events(steered, Seq::<ScoreEvent>::empty()) == steered);
            assert(last_scorer(Seq::<ScoreEvent>::empty()) == None::<PlayerId>);
        }
        event_listener_system(&mut self.reader, &self.events, &mut self.paddles, &mut self.ball);
        scoreboard_system(&mut self.displays, &self.paddles);
        proof {
            if let Some(scorer) = last_scorer(unread) {
                let (draw_x, draw_y) = choose|draw_x: u32, draw_y: u32|
                    (draw_x != 0 || draw_y != 0) && self.ball.velocity == serve_velocity(
                        scorer,
                        draw_x,
                        draw_y,
                    );
                serve_speed(scorer, draw_x, draw_y);
            }
            lone_paddle_is_shown(
                old(self).displays@[0].text@,
                PlayerId::User1,
                self.paddles@,
                0,
            );
            lone_paddle_is_shown(
                old(self).displays@[1].text@,
                PlayerId::User2,
                self.paddles@,
                1,
            );
        }
    }
}

/// The first velocity has the speed of the ball.
pub proof fn start_velocity_has_ball_speed()
    ensures
        has_ball_speed(Vector2 { x: (-BALL_START_COMPONENT) as i64, y: BALL_START_COMPONENT }),
{
    assert(399_999int * 399_999 <= 282_843int * 282_843 + 282_843int * 282_843) by (nonlinear_arith);
    assert(282_843int * 282_843 + 282_843int * 282_843 <= 400_001int * 400_001) by (nonlinear_arith);
    assert((-282_843int) * (-282_843int) == 282_843int * 282_843) by (nonlinear_arith);
}

/// The component of the first velocity is `BALL_SPEED` over the square
/// root of two, to the nearest whole number.
pub proof fn start_component_is_scaled()
    ensures
        scaled(1, 1) == BALL_START_COMPONENT,
{
    assert(is_floor_sqrt(565_685, 320_000_000_000)) by (nonlinear_arith);
    floor_sqrt_unique(565_685, 320_000_000_000);
    assert(1nat * 1nat == 1) by (nonlinear_arith);
    assert(4 * BALL_SPEED * BALL_SPEED * (1nat * 1nat) == 640_000_000_000);
    assert(640_000_000_000int / 2 == 320_000_000_000);
    assert((565_685int + 1) / 2 == 282_843);
}

} // verus!
