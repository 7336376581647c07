//! Moving the pointer the way a hand would: in short straight steps towards
//! the target, and now and then by a single pixel while nothing else
//! happens.

use crate::rng::{draw_below, draw_ratio};
use rand::rngs::ThreadRng;
use vstd::prelude::*;

verus! {

/// A movement of fewer than this many pixels in both directions is not made.
pub const MIN_MOVE: i64 = 2;

/// The pointer makes an idle movement once in this many polls.
pub const IDLE_ODDS: u32 = 1000;

/// `v` brought onto a screen side of `size` pixels: into `0..size`.
pub open spec fn clamp_coord(v: int, size: int) -> int {
    if v < 0 {
        0
    } else if v > size - 1 {
        size - 1
    } else {
        v
    }
}

/// `a / b` rounded towards zero, for a positive `b`.
pub open spec fn div_toward_zero(a: int, b: int) -> int {
    if a >= 0 {
        a / b
    } else {
        -((-a) / b)
    }
}

/// `n` is the number of steps for a movement whose squared length is
/// `dist_sq`: the least number of steps of ten pixels that cover the
/// length.
pub open spec fn is_step_count(dist_sq: int, n: int) -> bool {
    &&& n >= 0
    &&& 100 * n * n >= dist_sq
    &&& n > 0 ==> 100 * (n - 1) * (n - 1) < dist_sq
}

/// The number of steps for a movement of `dx` by `dy` pixels.
pub open spec fn step_count(dx: int, dy: int) -> int {
    choose|n: int| #[trigger] is_step_count(dx * dx + dy * dy, n)
}

/// There is only one number of steps for a length.
pub proof fn lemma_step_count_unique(dist_sq: int, a: int, b: int)
    requires
        is_step_count(dist_sq, a),
        is_step_count(dist_sq, b),
    ensures
        a == b,
{
    if a < b {
        assert(100 * a * a <= 100 * (b - 1) * (b - 1)) by (nonlinear_arith)
            requires
                0 <= a <= b - 1,
        ;
    }
    if b < a {
        assert(100 * b * b <= 100 * (a - 1) * (a - 1)) by (nonlinear_arith)
            requires
                0 <= b <= a - 1,
        ;
    }
}

/// The coordinate of the pointer after `i` of `steps` steps from `start`
/// towards `start + delta`, on a screen side of `size` pixels: the point on
/// the straight line, rounded towards zero and kept on the screen.
pub open spec fn waypoint(start: int, delta: int, steps: int, i: int, size: int) -> int {
    clamp_coord(div_toward_zero(start * steps + delta * i, steps), size)
}

/// The positions through which the pointer moves from `start` to `target`
/// on a screen of the given size. The target is first brought onto the
/// screen. A movement of less than `MIN_MOVE` pixels in both directions has
/// no positions.
pub open spec fn path(start: (i32, i32), target: (i32, i32), screen_width: int, screen_height: int) -> Seq<
    (i32, i32),
> {
    let tx = clamp_coord(target.0 as int, screen_width);
    let ty = clamp_coord(target.1 as int, screen_height);
    let dx = tx - start.0;
    let dy = ty - start.1;
    if -MIN_MOVE < dx < MIN_MOVE && -MIN_MOVE < dy < MIN_MOVE {
        Seq::empty()
    } else {
        let n = step_count(dx, dy);
        Seq::new(
            n as nat,
            |k: int|
                (
                    waypoint(start.0 as int, dx, n, k + 1, screen_width) as i32,
                    waypoint(start.1 as int, dy, n, k + 1, screen_height) as i32,
                ),
        )
    }
}

/// Brings a coordinate onto a screen side of `size` pixels.
pub fn clamp_to_screen(v: i64, size: i32) -> (r: i32)
    requires
        size >= 1,
    ensures
        r == clamp_coord(v as int, size as int),
        0 <= r < size,
{
    if v < 0 {
        0
    } else if v > (size - 1) as i64 {
        size - 1
    } else {
        v as i32
    }
}

/// The number of steps for a movement of `dx` by `dy` pixels: the least
/// number of steps of ten pixels that cover its length.
pub fn movement_steps(dx: i64, dy: i64) -> (n: u64)
    requires
        -0x1_0000_0000 <= dx <= 0x1_0000_0000,
        -0x1_0000_0000 <= dy <= 0x1_0000_0000,
    ensures
        n == step_count(dx as int, dy as int),
        is_step_count(dx * dx + dy * dy, n as int),
        n <= 0x8000_0000,
{
    let ax: u128 = if dx < 0 {
        (-dx) as u128
    } else {
        dx as u128
    };
    let ay: u128 = if dy < 0 {
        (-dy) as u128
    } else {
        dy as u128
    };
    assert(ax * ax == dx * dx && ay * ay == dy * dy) by (nonlinear_arith)
        requires
            ax == dx || ax == -dx,
            ay == dy || ay == -dy,
    ;
    assert(ax * ax <= 0x1_0000_0000 * 0x1_0000_0000 && ay * ay <= 0x1_0000_0000 * 0x1_0000_0000)
        by (nonlinear_arith)
        requires
            0 <= ax <= 0x1_0000_0000,
            0 <= ay <= 0x1_0000_0000,
    ;
    let dist_sq: u128 = ax * ax + ay * ay;
    let mut lo: u128 = 0;
    let mut hi: u128 = 0x8000_0000;
    while lo < hi
        invariant
            lo <= hi <= 0x8000_0000,
            100 * hi * hi >= dist_sq,
            lo > 0 ==> 100 * (lo - 1) * (lo - 1) < dist_sq,
        decreases hi - lo,
    {
        let mid: u128 = lo + (hi - lo) / 2;
        assert(100 * mid * mid <= 100 * 0x8000_0000 * 0x8000_0000) by (nonlinear_arith)
            requires
                0 <= mid <= 0x8000_0000,
        ;
        if 100 * mid * mid >= dist_sq {
            hi = mid;
        } else {
            lo = mid + 1;
        }
    }
    proof {
        let d = dx * dx + dy * dy;
        assert(is_step_count(d, lo as int));
        lemma_step_count_unique(d, lo as int, step_count(dx as int, dy as int));
    }
    lo as u64
}

/// The coordinate of the pointer after `i` of `steps` steps from `start`
/// towards `start + delta`, on a screen side of `size` pixels.
pub fn movement_waypoint(start: i32, delta: i64, steps: u64, i: u64, size: i32) -> (r: i32)
    requires
        size >= 1,
        1 <= i <= steps <= 0x8000_0000,
        -0x1_0000_0000 <= delta <= 0x1_0000_0000,
    ensures
        r == waypoint(start as int, delta as int, steps as int, i as int, size as int),
        0 <= r < size,
{
    assert(-0x8000_0000 * 0x8000_0000 <= start * steps <= 0x8000_0000 * 0x8000_0000
        && -0x1_0000_0000 * 0x8000_0000 <= delta * i <= 0x1_0000_0000 * 0x8000_0000)
        by (nonlinear_arith)
        requires
            -0x8000_0000 <= start <= 0x8000_0000,
            -0x1_0000_0000 <= delta <= 0x1_0000_0000,
            0 <= i <= 0x8000_0000,
            0 <= steps <= 0x8000_0000,
    ;
    let numerator: i128 = (start as i128) * (steps as i128) + (delta as i128) * (i as i128);
    let quotient: i128 = if numerator >= 0 {
        numerator / (steps as i128)
    } else {
        -((-numerator) / (steps as i128))
    };
    if quotient < 0 {
        0
    } else if quotient > (size - 1) as i128 {
        size - 1
    } else {
        quotient as i32
    }
}

/// Plans the movement of the pointer from `start` to `target` on a screen
/// of the given size: the positions to move through, one after the other.
/// The last of them is the target, brought onto the screen.
pub fn movement_path(start: (i32, i32), target: (i32, i32), screen_width: i32, screen_height: i32) -> (r:
    Vec<(i32, i32)>)
    requires
        screen_width >= 1,
        screen_height >= 1,
    ensures
        r@ == path(start, target, screen_width as int, screen_height as int),
        forall|k: int|
            0 <= k < r@.len() ==> 0 <= (#[trigger] r@[k]).0 < screen_width && 0 <= r@[k].1
                < screen_height,
        r@.len() > 0 ==> r@.last() == (
            clamp_coord(target.0 as int, screen_width as int) as i32,
            clamp_coord(target.1 as int, screen_height as int) as i32,
        ),
{
    let tx = clamp_to_screen(target.0 as i64, screen_width);
    let ty = clamp_to_screen(target.1 as i64, screen_height);
    let dx: i64 = tx as i64 - start.0 as i64;
    let dy: i64 = ty as i64 - start.1 as i64;
    let mut r: Vec<(i32, i32)> = Vec::new();
    if -MIN_MOVE < dx && dx < MIN_MOVE && -MIN_MOVE < dy && dy < MIN_MOVE {
        assert(r@ =~= path(start, target, screen_width as int, screen_height as int));
        return r;
    }
    let steps = movement_steps(dx, dy);
    assert(steps >= 1) by {
        assert(dx * dx + dy * dy > 0) by (nonlinear_arith)
            requires
                dx != 0 || dy != 0,
        ;
        assert(steps == 0 ==> 100 * steps * steps == 0) by (nonlinear_arith);
    }
    let mut i: u64 = 1;
    while i <= steps
        invariant
            screen_width >= 1,
            screen_height >= 1,
            1 <= i <= steps + 1,
            steps <= 0x8000_0000,
            -0x1_0000_0000 <= dx <= 0x1_0000_0000,
            -0x1_0000_0000 <= dy <= 0x1_0000_0000,
            r@.len() == i - 1,
            forall|k: int|
                0 <= k < r@.len() ==> #[trigger] r@[k] == (
                    waypoint(start.0 as int, dx as int, steps as int, k + 1, screen_width as int) as i32,
                    waypoint(start.1 as int, dy as int, steps as int, k + 1, screen_height as int) as i32,
                ),
            forall|k: int|
                0 <= k < r@.len() ==> 0 <= (#[trigger] r@[k]).0 < screen_width && 0 <= r@[k].1
                    < screen_height,
        decreases steps + 1 - i,
    {
        let x = movement_waypoint(start.0, dx, steps, i, screen_width);
        let y = movement_waypoint(start.1, dy, steps, i, screen_height);
        r.push((x, y));
        i = i + 1;
    }
    proof {
        assert(r@ =~= path(start, target, screen_width as int, screen_height as int));
        lemma_last_waypoint(start.0 as int, dx as int, steps as int, screen_width as int);
        lemma_last_waypoint(start.1 as int, dy as int, steps as int, screen_height as int);
    }
    r
}

/// After the last step the pointer is where the movement was to end.
pub proof fn lemma_last_waypoint(start: int, delta: int, steps: int, size: int)
    requires
        steps >= 1,
    ensures
        waypoint(start, delta, steps, steps, size) == clamp_coord(start + delta, size),
{
    let total = start + delta;
    assert(start * steps + delta * steps == steps * total) by (nonlinear_arith)
        requires
            total == start + delta,
    ;
    assert(-(steps * total) == steps * (-total)) by (nonlinear_arith);
    if total >= 0 {
        assert(steps * total >= 0) by (nonlinear_arith)
            requires
                total >= 0,
                steps >= 1,
        ;
        vstd::arithmetic::div_mod::lemma_div_multiples_vanish(total, steps);
    } else {
        assert(steps * total < 0) by (nonlinear_arith)
            requires
                total < 0,
                steps >= 1,
        ;
        vstd::arithmetic::div_mod::lemma_div_multiples_vanish(-total, steps);
    }
}

/// Where an idle movement by `(dx, dy)` takes the pointer from `current` on
/// a screen of the given size: the moved position, kept on the screen, or
/// nothing if that is where the pointer already is.
pub open spec fn nudged(
    current: (i32, i32),
    screen_width: int,
    screen_height: int,
    dx: int,
    dy: int,
) -> Option<(i32, i32)> {
    let x = clamp_coord(current.0 + dx, screen_width);
    let y = clamp_coord(current.1 + dy, screen_height);
    if x != current.0 || y != current.1 {
        Some((x as i32, y as i32))
    } else {
        None
    }
}

/// Where an idle movement by `(dx, dy)` takes the pointer, if anywhere.
pub fn nudge_target(current: (i32, i32), screen_width: i32, screen_height: i32, dx: i32, dy: i32) -> (r:
    Option<(i32, i32)>)
    requires
        screen_width >= 1,
        screen_height >= 1,
    ensures
        r == nudged(current, screen_width as int, screen_height as int, dx as int, dy as int),
{
    let x = clamp_to_screen(current.0 as i64 + dx as i64, screen_width);
    let y = clamp_to_screen(current.1 as i64 + dy as i64, screen_height);
    if x != current.0 || y != current.1 {
        Some((x, y))
    } else {
        None
    }
}

/// What comes of an idle movement: where the movement by `(dx, dy)` takes
/// the pointer if the roll says that there is to be one, and nothing
/// otherwise.
pub open spec fn idle_outcome(
    current: (i32, i32),
    screen_width: int,
    screen_height: int,
    roll: bool,
    dx: int,
    dy: int,
) -> Option<(i32, i32)> {
    if roll {
        nudged(current, screen_width, screen_height, dx, dy)
    } else {
        None
    }
}

/// Decides on an idle movement from what was drawn: `roll` says whether
/// there is to be one, and `(dx, dy)` by how much.
pub fn idle_decision(
    current: (i32, i32),
    screen_width: i32,
    screen_height: i32,
    roll: bool,
    dx: i32,
    dy: i32,
) -> (r: Option<(i32, i32)>)
    requires
        screen_width >= 1,
        screen_height >= 1,
    ensures
        r == idle_outcome(
            current,
            screen_width as int,
            screen_height as int,
            roll,
            dx as int,
            dy as int,
        ),
{
    if roll {
        nudge_target(current, screen_width, screen_height, dx, dy)
    } else {
        None
    }
}

/// Decides on an idle movement. Once in `IDLE_ODDS` calls, on average, the
/// pointer is to move by at most one pixel in each direction; the result is
/// then the position to move to, unless the pointer would stay where it is.
/// The roll and the two steps are drawn; what comes of them is
/// `idle_outcome`.
pub fn idle_nudge(current: (i32, i32), screen_width: i32, screen_height: i32, rng: &mut ThreadRng) -> (r:
    Option<(i32, i32)>)
    requires
        screen_width >= 1,
        screen_height >= 1,
    ensures
        exists|roll: bool, dx: int, dy: int|
            -1 <= dx <= 1 && -1 <= dy <= 1 && r == #[trigger] idle_outcome(
                current,
                screen_width as int,
                screen_height as int,
                roll,
                dx,
                dy,
            ),
{
    let roll = draw_ratio(rng, 1, IDLE_ODDS);
    let (dx, dy): (i32, i32) = if roll {
        (draw_below(rng, 3) as i32 - 1, draw_below(rng, 3) as i32 - 1)
    } else {
        (0, 0)
    };
    let r = idle_decision(current, screen_width, screen_height, roll, dx, dy);
    assert(r == idle_outcome(
        current,
        screen_width as int,
        screen_height as int,
        roll,
        dx as int,
        dy as int,
    ));
    r
}

} // verus!
