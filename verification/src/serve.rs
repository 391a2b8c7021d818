use vstd::prelude::*;
use crate::ball::{has_ball_speed, Ball, BALL_SPEED};
use crate::geometry::{negatable, Vector2};
use crate::player::PlayerId;

verus! {

/// Where the ball is put after a point, horizontally.
pub const SERVE_X: i64 = 0;

/// Where the ball is put after a point, vertically.
pub const SERVE_Y: i64 = 50_000_000_000;

/// Where the ball is put after a point.
pub open spec fn serve_point() -> Vector2 {
    Vector2 { x: SERVE_X, y: SERVE_Y }
}

/// Whether `root` is the integer part of the square root of `n`.
pub open spec fn is_floor_sqrt(root: nat, n: nat) -> bool {
    root * root <= n < (root + 1) * (root + 1)
}

/// The integer part of the square root of `n`.
pub open spec fn floor_sqrt(n: nat) -> nat {
    choose|root: nat| is_floor_sqrt(root, n)
}

/// Every number has exactly one integer square root.
pub proof fn floor_sqrt_exists(n: nat)
    ensures
        is_floor_sqrt(floor_sqrt(n), n),
    decreases n,
{
    if n == 0 {
        assert(is_floor_sqrt(0, 0)) by (nonlinear_arith);
    } else {
        floor_sqrt_exists((n - 1) as nat);
        let r = floor_sqrt((n - 1) as nat);
        if (r + 1) * (r + 1) <= n {
            assert((r + 1) * (r + 1) == n);
            assert(n < (r + 2) * (r + 2)) by (nonlinear_arith)
                requires
                    (r + 1) * (r + 1) == n,
            ;
            assert(is_floor_sqrt(r + 1, n));
        } else {
            assert(is_floor_sqrt(r, n));
        }
    }
}

pub proof fn floor_sqrt_unique(root: nat, n: nat)
    requires
        is_floor_sqrt(root, n),
    ensures
        floor_sqrt(n) == root,
{
    floor_sqrt_exists(n);
    let other = floor_sqrt(n);
    assert(other == root) by (nonlinear_arith)
        requires
            root * root <= n < (root + 1) * (root + 1),
            other * other <= n < (other + 1) * (other + 1),
    {
        if other < root {
            assert((other + 1) * (other + 1) <= root * root);
        } else if root < other {
            assert((root + 1) * (root + 1) <= other * other);
        }
    }
}

/// Computes the integer part of a square root.
pub fn integer_sqrt(n: u64) -> (root: u64)
    ensures
        root == floor_sqrt(n as nat),
        is_floor_sqrt(root as nat, n as nat),
{
    let mut low: u64 = 0;
    let mut high: u64 = 0x1_0000_0000;
    assert(high * high > n) by (nonlinear_arith)
        requires
            high == 0x1_0000_0000,
            n <= 0xffff_ffff_ffff_ffff,
    ;
    while high - low > 1
        invariant
            low < high <= 0x1_0000_0000,
            low * low <= n < high * high,
        decreases high - low,
    {
        let middle: u64 = low + (high - low) / 2;
        assert(middle * middle <= 0xffff_ffff * 0xffff_ffff) by (nonlinear_arith)
            requires
                middle <= 0xffff_ffff,
        ;
        if middle * middle <= n {
            low = middle;
        } else {
            high = middle;
        }
    }
    proof {
        assert(is_floor_sqrt(low as nat, n as nat));
        floor_sqrt_unique(low as nat, n as nat);
    }
    low
}

/// `BALL_SPEED * a / sqrt(a * a + b * b)` rounded to the nearest whole
/// number, a half upward: one component of the vector of length
/// `BALL_SPEED` that points along `(a, b)`. Zero where `a` and `b` are
/// both zero. It is half of the integer part of twice that quotient,
/// plus one.
pub open spec fn scaled(a: nat, b: nat) -> nat {
    if a == 0 && b == 0 {
        0
    } else {
        (floor_sqrt(((4 * BALL_SPEED * BALL_SPEED * (a * a)) / ((a * a + b * b) as int)) as nat)
            + 1) / 2
    }
}

/// `scaled` without division and root: with `c` for `scaled(a, b)` and
/// `r` for `sqrt(a * a + b * b)`, `(c - 1/2) * r <= BALL_SPEED * a`
/// and `BALL_SPEED * a < (c + 1/2) * r`, both doubled and squared.
pub proof fn scaled_is_nearest(a: nat, b: nat)
    requires
        a != 0 || b != 0,
    ensures
        scaled(a, b) >= 1 ==> (2 * scaled(a, b) - 1) * (2 * scaled(a, b) - 1) * (a * a + b * b) <= 4
            * BALL_SPEED * BALL_SPEED * (a * a),
        4 * BALL_SPEED * BALL_SPEED * (a * a) < (2 * scaled(a, b) + 1) * (2 * scaled(a, b) + 1) * (a
            * a + b * b),
        scaled(a, b) <= BALL_SPEED,
{
    let d: int = (a * a + b * b) as int;
    let n: int = 4 * BALL_SPEED * BALL_SPEED * (a * a);
    assert(d > 0 && n >= 0 && n <= 640_000_000_000 * d) by (nonlinear_arith)
        requires
            d == a * a + b * b,
            n == 640_000_000_000 * (a * a),
            a != 0 || b != 0,
    ;
    let q: int = n / d;
    assert(0 <= q && q * d <= n < (q + 1) * d) by (nonlinear_arith)
        requires
            q == n / d,
            d > 0,
            n >= 0,
    ;
    floor_sqrt_exists(q as nat);
    let t: int = floor_sqrt(q as nat) as int;
    let c: int = scaled(a, b) as int;
    assert(c == (t + 1) / 2);
    assert(2 * c - 1 <= t <= 2 * c);
    if c >= 1 {
        assert((2 * c - 1) * (2 * c - 1) * d <= n) by (nonlinear_arith)
            requires
                1 <= 2 * c - 1 <= t,
                t * t <= q,
                q * d <= n,
                d > 0,
        {
            assert((2 * c - 1) * (2 * c - 1) <= t * t);
            assert((2 * c - 1) * (2 * c - 1) * d <= t * t * d);
            assert(t * t * d <= q * d);
        }
    }
    assert(n < (2 * c + 1) * (2 * c + 1) * d) by (nonlinear_arith)
        requires
            0 <= t + 1 <= 2 * c + 1,
            q + 1 <= (t + 1) * (t + 1),
            n < (q + 1) * d,
            d > 0,
    {
        assert((t + 1) * (t + 1) <= (2 * c + 1) * (2 * c + 1));
        assert((q + 1) * d <= (t + 1) * (t + 1) * d);
        assert((t + 1) * (t + 1) * d <= (2 * c + 1) * (2 * c + 1) * d);
    }
    assert(t <= 800_000) by (nonlinear_arith)
        requires
            t * t <= q,
            q * d <= n,
            n <= 640_000_000_000 * d,
            d > 0,
            t >= 0,
    {
        assert(q <= 640_000_000_000);
        if t > 800_000 {
            assert(t * t >= 800_001 * 800_001);
        }
    }
}

/// Computes `scaled`.
pub fn scale_to_speed(a: u32, b: u32) -> (c: i64)
    ensures
        c == scaled(a as nat, b as nat),
        0 <= c <= BALL_SPEED,
{
    if a == 0 && b == 0 {
        return 0;
    }
    let wide_a: u128 = a as u128;
    let wide_b: u128 = b as u128;
    assert(wide_a * wide_a <= 0xffff_ffff * 0xffff_ffff && wide_b * wide_b <= 0xffff_ffff
        * 0xffff_ffff) by (nonlinear_arith)
        requires
            wide_a <= 0xffff_ffff,
            wide_b <= 0xffff_ffff,
    ;
    let aa: u128 = wide_a * wide_a;
    let bb: u128 = wide_b * wide_b;
    let d: u128 = aa + bb;
    assert(d > 0) by (nonlinear_arith)
        requires
            d == wide_a * wide_a + wide_b * wide_b,
            wide_a != 0 || wide_b != 0,
    ;
    let n: u128 = 640_000_000_000u128 * aa;
    let q: u128 = n / d;
    assert(q <= 640_000_000_000) by (nonlinear_arith)
        requires
            q == n / d,
            n == 640_000_000_000 * aa,
            d == aa + bb,
            d > 0,
            aa >= 0,
            bb >= 0,
    {
        assert(n <= 640_000_000_000 * d);
        assert(q * d <= n);
        if q > 640_000_000_000 {
            assert(q * d >= 640_000_000_001 * d);
        }
    }
    let root: u64 = integer_sqrt(q as u64);
    proof {
        scaled_is_nearest(a as nat, b as nat);
        assert(4 * BALL_SPEED * BALL_SPEED * ((a as nat) * (a as nat)) == n);
        assert(((a as nat) * (a as nat) + (b as nat) * (b as nat)) as int == d);
        assert(root * root <= 640_000_000_000);
        assert(root <= 800_000) by (nonlinear_arith)
            requires
                root * root <= 640_000_000_000,
        {
            if root > 800_000 {
                assert(root * root >= 800_001 * 800_001);
            }
        }
    }
    ((root + 1) / 2) as i64
}

/// A component of a serve: turned round where `User1` scored.
pub open spec fn toward(scorer: PlayerId, component: nat) -> int {
    if scorer == PlayerId::User1 {
        -(component as int)
    } else {
        component as int
    }
}

/// The velocity of a serve after a point of `scorer`: the direction of
/// the two draws, brought to the length `BALL_SPEED`, each component
/// rounded to the nearest whole number.
pub open spec fn serve_velocity(scorer: PlayerId, draw_x: u32, draw_y: u32) -> Vector2 {
    Vector2 {
        x: toward(scorer, scaled(draw_x as nat, draw_y as nat)) as i64,
        y: toward(scorer, scaled(draw_y as nat, draw_x as nat)) as i64,
    }
}

/// Computes the velocity of a serve from two draws.
pub fn serve_direction(scorer: PlayerId, draw_x: u32, draw_y: u32) -> (velocity: Vector2)
    ensures
        velocity == serve_velocity(scorer, draw_x, draw_y),
        velocity.x > i64::MIN,
        velocity.y > i64::MIN,
{
    let x: i64 = scale_to_speed(draw_x, draw_y);
    let y: i64 = scale_to_speed(draw_y, draw_x);
    match scorer {
        PlayerId::User1 => Vector2 { x: -x, y: -y },
        PlayerId::User2 => Vector2 { x, y },
    }
}

/// A serve has the speed of the ball, unless both draws are zero, and
/// points where the scorer says: down and to the left after a point of
/// `User1`, up and to the right after one of `User2`.
pub proof fn serve_speed(scorer: PlayerId, draw_x: u32, draw_y: u32)
    requires
        draw_x != 0 || draw_y != 0,
    ensures
        has_ball_speed(serve_velocity(scorer, draw_x, draw_y)),
        scorer == PlayerId::User1 ==> serve_velocity(scorer, draw_x, draw_y).x <= 0
            && serve_velocity(scorer, draw_x, draw_y).y <= 0,
        scorer == PlayerId::User2 ==> serve_velocity(scorer, draw_x, draw_y).x >= 0
            && serve_velocity(scorer, draw_x, draw_y).y >= 0,
{
    let a: nat = draw_x as nat;
    let b: nat = draw_y as nat;
    scaled_is_nearest(a, b);
    scaled_is_nearest(b, a);
    let cx: int = scaled(a, b) as int;
    let cy: int = scaled(b, a) as int;
    let d: int = (a * a + b * b) as int;
    let na: int = 4 * BALL_SPEED * BALL_SPEED * (a * a);
    let nb: int = 4 * BALL_SPEED * BALL_SPEED * (b * b);
    assert(b * b + a * a == a * a + b * b);
    assert(d > 0 && na >= 0 && nb >= 0 && na + nb == 640_000_000_000 * d) by (nonlinear_arith)
        requires
            d == a * a + b * b,
            na == 640_000_000_000 * (a * a),
            nb == 640_000_000_000 * (b * b),
            a != 0 || b != 0,
    ;
    // Twice each component, less one and plus one, squared.
    let below_x: int = if cx >= 1 {
        (2 * cx - 1) * (2 * cx - 1)
    } else {
        0
    };
    let below_y: int = if cy >= 1 {
        (2 * cy - 1) * (2 * cy - 1)
    } else {
        0
    };
    let above_x: int = (2 * cx + 1) * (2 * cx + 1);
    let above_y: int = (2 * cy + 1) * (2 * cy + 1);
    assert(below_x * d <= na && below_y * d <= nb);
    assert(below_x + below_y <= 640_000_000_000) by (nonlinear_arith)
        requires
            below_x * d <= na,
            below_y * d <= nb,
            na + nb == 640_000_000_000 * d,
            d > 0,
    {
        assert((below_x + below_y) * d <= 640_000_000_000 * d);
    }
    assert(above_x + above_y > 640_000_000_000) by (nonlinear_arith)
        requires
            na < above_x * d,
            nb < above_y * d,
            na + nb == 640_000_000_000 * d,
            d > 0,
    {
        assert((above_x + above_y) * d > 640_000_000_000 * d);
    }
    let sx: int = cx * cx;
    let sy: int = cy * cy;
    assert(above_x == 4 * sx + 4 * cx + 1 && above_y == 4 * sy + 4 * cy + 1) by (nonlinear_arith)
        requires
            above_x == (2 * cx + 1) * (2 * cx + 1),
            above_y == (2 * cy + 1) * (2 * cy + 1),
            sx == cx * cx,
            sy == cy * cy,
    ;
    assert(cx >= 1 ==> below_x == 4 * sx - 4 * cx + 1) by (nonlinear_arith)
        requires
            cx >= 1 ==> below_x == (2 * cx - 1) * (2 * cx - 1),
            sx == cx * cx,
    ;
    assert(cy >= 1 ==> below_y == 4 * sy - 4 * cy + 1) by (nonlinear_arith)
        requires
            cy >= 1 ==> below_y == (2 * cy - 1) * (2 * cy - 1),
            sy == cy * cy,
    ;
    assert(sx <= 160_000_000_000 && sy <= 160_000_000_000 && (cx == 0 ==> sx == 0) && (cy == 0
        ==> sy == 0)) by (nonlinear_arith)
        requires
            0 <= cx <= 400_000,
            0 <= cy <= 400_000,
            sx == cx * cx,
            sy == cy * cy,
    ;
    // No longer than the ball's speed and one.
    assert(sx + sy <= 400_001 * 400_001);
    // The two components together are far smaller than twice the speed.
    assert(cx + cy <= 799_998) by (nonlinear_arith)
        requires
            sx == cx * cx,
            sy == cy * cy,
            sx + sy <= 400_001 * 400_001,
            cx >= 0,
            cy >= 0,
    {
        assert((cx + cy) * (cx + cy) <= 2 * (sx + sy)) by {
            assert((cx - cy) * (cx - cy) >= 0);
        }
        if cx + cy >= 799_999 {
            assert((cx + cy) * (cx + cy) >= 799_999 * 799_999);
        }
    }
    // No shorter than the ball's speed less one.
    assert(sx + sy >= 399_999 * 399_999);
    let v = serve_velocity(scorer, draw_x, draw_y);
    assert(v.x * v.x == sx && v.y * v.y == sy) by (nonlinear_arith)
        requires
            v.x == cx || v.x == -cx,
            v.y == cy || v.y == -cy,
            sx == cx * cx,
            sy == cy * cy,
    ;
}

/// With both draws zero there is no direction, and the serve stands still.
pub proof fn serve_without_direction(scorer: PlayerId)
    ensures
        serve_velocity(scorer, 0, 0) == (Vector2 { x: 0, y: 0 }),
{
}

/// Both components of a serve can change sign.
pub proof fn serve_velocity_is_negatable(scorer: PlayerId, draw_x: u32, draw_y: u32)
    ensures
        negatable(serve_velocity(scorer, draw_x, draw_y)),
{
    if draw_x != 0 || draw_y != 0 {
        scaled_is_nearest(draw_x as nat, draw_y as nat);
        scaled_is_nearest(draw_y as nat, draw_x as nat);
    }
}

/// The pair of draws that a serve goes by: the pair drawn, and the
/// diagonal where both draws are zero and give no direction.
pub open spec fn settled(draw_x: u32, draw_y: u32) -> (u32, u32) {
    if draw_x == 0 && draw_y == 0 {
        (1u32, 1u32)
    } else {
        (draw_x, draw_y)
    }
}

/// Gives a pair of draws a direction where it has none.
pub fn settle_draws(draw_x: u32, draw_y: u32) -> (pair: (u32, u32))
    ensures
        pair == settled(draw_x, draw_y),
        pair.0 != 0 || pair.1 != 0,
{
    if draw_x == 0 && draw_y == 0 {
        (1, 1)
    } else {
        (draw_x, draw_y)
    }
}

/// Whether the ball was served after a point of `scorer`: it stands at
/// the serve point, with its size, and moves as some pair of draws
/// says that has a direction.
pub open spec fn served(ball: Ball, before: Ball, scorer: PlayerId) -> bool {
    &&& ball.position == serve_point()
    &&& ball.size == before.size
    &&& exists|draw_x: u32, draw_y: u32|
        (draw_x != 0 || draw_y != 0) && ball.velocity == serve_velocity(scorer, draw_x, draw_y)
}

/// Puts the ball at the serve point and sends it off in the direction
/// of the two draws, turned round where `User1` scored.
pub fn serve(ball: &mut Ball, scorer: PlayerId, draw_x: u32, draw_y: u32)
    ensures
        final(ball).position == serve_point(),
        final(ball).velocity == serve_velocity(scorer, draw_x, draw_y),
        final(ball).size == old(ball).size,
        negatable(final(ball).velocity),
        draw_x != 0 || draw_y != 0 ==> served(*final(ball), *old(ball), scorer),
        draw_x != 0 || draw_y != 0 ==> has_ball_speed(final(ball).velocity),
{
    ball.position = Vector2 { x: SERVE_X, y: SERVE_Y };
    ball.velocity = serve_direction(scorer, draw_x, draw_y);
    proof {
        if draw_x != 0 || draw_y != 0 {
            serve_speed(scorer, draw_x, draw_y);
        }
    }
}

} // verus!
