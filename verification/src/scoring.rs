use vstd::prelude::*;
use crate::ball::{has_ball_speed, Ball};
use crate::events::{ScoreEvent, ScoreEvents, ScoreReader};
use crate::geometry::negatable;
use crate::paddle::Paddle;
use crate::player::PlayerId;
use crate::serve::{
    serve, serve_point, serve_speed, serve_velocity, serve_velocity_is_negatable, served,
    settle_draws,
};

verus! {

/// The score at which a match would be over.
pub const MATCH_POINT: u64 = 3;

/// `rand::random::<u32>()`: any value may come back.
#[verifier::external_body]
fn random_draw() -> u32 {
    rand::random::<u32>()
}

/// The paddle after a point of `player`: one more on its score where it
/// is that player's, as far as the counter goes.
pub open spec fn awarded(paddle: Paddle, player: PlayerId) -> Paddle {
    if paddle.player == player && paddle.score < u64::MAX {
        Paddle { score: (paddle.score + 1) as u64, ..paddle }
    } else {
        paddle
    }
}

/// The paddles after a point of `player`.
pub open spec fn awarded_each(paddles: Seq<Paddle>, player: PlayerId) -> Seq<Paddle> {
    Seq::new(paddles.len(), |i: int| awarded(paddles[i], player))
}

/// Whether a paddle of `player` stands at the match point.
pub open spec fn at_match_point(paddles: Seq<Paddle>, player: PlayerId) -> bool {
    exists|i: int|
        0 <= i < paddles.len() && (#[trigger] paddles[i]).player == player && paddles[i].score
            == MATCH_POINT
}

/// The paddles after an event.
pub open spec fn after_event(paddles: Seq<Paddle>, event: ScoreEvent) -> Seq<Paddle> {
    match event {
        ScoreEvent::PointScored(player) => awarded_each(paddles, player),
        ScoreEvent::MatchOver => paddles,
    }
}

/// The paddles after a run of events.
pub open spec fn after_events(paddles: Seq<Paddle>, events: Seq<ScoreEvent>) -> Seq<Paddle>
    decreases events.len(),
{
    if events.len() == 0 {
        paddles
    } else {
        after_event(after_events(paddles, events.drop_last()), events.last())
    }
}

/// The player of the last point in a run of events.
pub open spec fn last_scorer(events: Seq<ScoreEvent>) -> Option<PlayerId>
    decreases events.len(),
{
    if events.len() == 0 {
        None
    } else {
        match events.last() {
            ScoreEvent::PointScored(player) => Some(player),
            ScoreEvent::MatchOver => last_scorer(events.drop_last()),
        }
    }
}

/// Gives every paddle of `player` a point. Returns whether one of them
/// then stands at the match point.
pub fn award_point(paddles: &mut Vec<Paddle>, player: PlayerId) -> (match_point: bool)
    ensures
        final(paddles)@ == awarded_each(old(paddles)@, player),
        match_point == at_match_point(final(paddles)@, player),
{
    let mut match_point: bool = false;
    let mut i: usize = 0;
    while i < paddles.len()
        invariant
            i <= paddles@.len(),
            paddles@.len() == old(paddles)@.len(),
            forall|j: int| 0 <= j < i ==> paddles@[j] == awarded(old(paddles)@[j], player),
            forall|j: int| i <= j < paddles@.len() ==> paddles@[j] == old(paddles)@[j],
            match_point == at_match_point(paddles@.take(i as int), player),
        decreases paddles@.len() - i,
    {
        let ghost before = paddles@;
        if paddles[i].player == player {
            if paddles[i].score < u64::MAX {
                paddles[i].score = paddles[i].score + 1;
            }
        }
        let here: bool = paddles[i].player == player && paddles[i].score == MATCH_POINT;
        proof {
            let shorter = before.take(i as int);
            let longer = paddles@.take(i as int + 1);
            assert(forall|j: int| 0 <= j < i ==> longer[j] == shorter[j]);
            assert(longer[i as int] == paddles@[i as int]);
            if at_match_point(shorter, player) {
                let j = choose|j: int|
                    0 <= j < shorter.len() && (#[trigger] shorter[j]).player == player && shorter[j].score
                        == MATCH_POINT;
                assert(longer[j].player == player && longer[j].score == MATCH_POINT);
            }
            if at_match_point(longer, player) {
                let j = choose|j: int|
                    0 <= j < longer.len() && (#[trigger] longer[j]).player == player && longer[j].score
                        == MATCH_POINT;
                if j < i {
                    assert(shorter[j].player == player && shorter[j].score == MATCH_POINT);
                }
            }
        }
        match_point = match_point || here;
        i = i + 1;
    }
    assert(paddles@.take(i as int) =~= paddles@);
    assert(paddles@ =~= awarded_each(old(paddles)@, player));
    match_point
}

/// Carries out one event with the two draws given. A point goes to
/// every paddle of the player named, and the ball is served; a match
/// end changes nothing. Returns whether a paddle reached the match point.
pub fn apply_event(
    paddles: &mut Vec<Paddle>,
    ball: &mut Ball,
    event: ScoreEvent,
    draw_x: u32,
    draw_y: u32,
) -> (match_point: bool)
    ensures
        final(paddles)@ == after_event(old(paddles)@, event),
        match event {
            ScoreEvent::PointScored(player) => {
                &&& final(ball).position == serve_point()
                &&& final(ball).velocity == serve_velocity(player, draw_x, draw_y)
                &&& final(ball).size == old(ball).size
                &&& match_point == at_match_point(final(paddles)@, player)
            },
            ScoreEvent::MatchOver => *final(ball) == *old(ball) && !match_point,
        },
{
    match event {
        ScoreEvent::PointScored(player) => {
            let match_point: bool = award_point(paddles, player);
            serve(ball, player, draw_x, draw_y);
            match_point
        },
        ScoreEvent::MatchOver => false,
    }
}

/// Takes the events that `reader` has not seen and carries them out in
/// order, with two fresh draws for each point: first the vertical one,
/// then the horizontal one. Two draws of zero, which give no direction,
/// count as the diagonal. Reaching the match point has no effect.
pub fn event_listener_system(
    reader: &mut ScoreReader,
    queue: &ScoreEvents,
    paddles: &mut Vec<Paddle>,
    ball: &mut Ball,
)
    ensures
        final(reader)@ == queue@.sent,
        final(paddles)@ == after_events(old(paddles)@, queue@.unread(old(reader)@)),
        match last_scorer(queue@.unread(old(reader)@)) {
            Some(scorer) => served(*final(ball), *old(ball), scorer),
            None => *final(ball) == *old(ball),
        },
        negatable(old(ball).velocity) ==> negatable(final(ball).velocity),
{
    let events: Vec<ScoreEvent> = reader.take(queue);
    let mut k: usize = 0;
    assert(events@.take(0) =~= Seq::<ScoreEvent>::empty());
    while k < events.len()
        invariant
            k <= events@.len(),
            paddles@ == after_events(old(paddles)@, events@.take(k as int)),
            match last_scorer(events@.take(k as int)) {
                Some(scorer) => served(*ball, *old(ball), scorer),
                None => *ball == *old(ball),
            },
            negatable(old(ball).velocity) ==> negatable(ball.velocity),
        decreases events@.len() - k,
    {
        let event: ScoreEvent = events[k];
        proof {
            let longer = events@.take(k as int + 1);
            assert(longer.drop_last() =~= events@.take(k as int));
            assert(longer.last() == event);
        }
        match event {
            ScoreEvent::PointScored(scorer) => {
                let first: u32 = random_draw();
                let second: u32 = random_draw();
                let (draw_x, draw_y) = settle_draws(second, first);
                let _ = apply_event(paddles, ball, event, draw_x, draw_y);
                assert(ball.velocity == serve_velocity(scorer, draw_x, draw_y));
                assert(negatable(ball.velocity)) by {
                    serve_velocity_is_negatable(scorer, draw_x, draw_y);
                }
            },
            ScoreEvent::MatchOver => {
                let _ = apply_event(paddles, ball, event, 0, 0);
            },
        }
        k = k + 1;
    }
    assert(events@.take(k as int) =~= events@);
}

/// After a point of `player`, a paddle of that player has one point
/// more, every other paddle has what it had, the ball stands at the
/// serve point, and, unless both draws were zero, it has the speed of
/// the ball.
pub proof fn point_is_counted_once(
    paddles: Seq<Paddle>,
    player: PlayerId,
    index: int,
    draw_x: u32,
    draw_y: u32,
)
    requires
        0 <= index < paddles.len(),
        paddles[index].score < u64::MAX,
    ensures
        after_event(paddles, ScoreEvent::PointScored(player)).len() == paddles.len(),
        paddles[index].player == player ==> after_event(
            paddles,
            ScoreEvent::PointScored(player),
        )[index].score == paddles[index].score + 1,
        paddles[index].player != player ==> after_event(
            paddles,
            ScoreEvent::PointScored(player),
        )[index] == paddles[index],
        after_event(paddles, ScoreEvent::MatchOver) == paddles,
        draw_x != 0 || draw_y != 0 ==> has_ball_speed(serve_velocity(player, draw_x, draw_y)),
{
    if draw_x != 0 || draw_y != 0 {
        serve_speed(player, draw_x, draw_y);
    }
}

} // verus!
