//! The enemy motion controller: every tick each enemy advances toward a
//! target point on its formation's ellipse, moving at most one step
//! length and never overshooting the target on either axis. The host
//! supplies the cosine and sine of the advanced orbit parameter, scaled
//! by `TRIG_SCALE`; everything else is computed and proved here.

use vstd::prelude::*;

verus! {

use crate::formation::Formation;
use crate::geom::Vec2;
use crate::{ENTITY_LIMIT, PI_MICRO, POS_LIMIT, RADIUS_LIMIT, SPEED_LIMIT, TICK_RATE, TRIG_SCALE};

/// Magnitude of an integer.
pub open spec fn iabs(v: int) -> int {
    if v >= 0 {
        v
    } else {
        -v
    }
}

/// The integer square root, rounded down.
pub open spec fn sqrt_floor(n: nat) -> nat
    decreases n,
{
    if n == 0 {
        0
    } else {
        let p = sqrt_floor((n - 1) as nat);
        if (p + 1) * (p + 1) <= n {
            (p + 1) as nat
        } else {
            p
        }
    }
}

/// `sqrt_floor(n)` is the unique `r` with `r * r <= n < (r + 1) * (r + 1)`.
pub proof fn lemma_sqrt_floor_bounds(n: nat)
    ensures
        sqrt_floor(n) * sqrt_floor(n) <= n,
        n < (sqrt_floor(n) + 1) * (sqrt_floor(n) + 1),
    decreases n,
{
    if n == 0 {
        assert(sqrt_floor(0) == 0);
        assert(sqrt_floor(n) * sqrt_floor(n) <= n);
        assert(n < (sqrt_floor(n) + 1) * (sqrt_floor(n) + 1)) by (nonlinear_arith)
            requires
                n == 0,
                sqrt_floor(n) == 0,
        ;
    } else {
        lemma_sqrt_floor_bounds((n - 1) as nat);
        let p = sqrt_floor((n - 1) as nat);
        assert(p * p <= n - 1);
        assert(n - 1 < (p + 1) * (p + 1));
        if (p + 1) * (p + 1) <= n {
            assert(sqrt_floor(n) == p + 1);
            assert(n == (p + 1) * (p + 1));
            assert((p + 1 + 1) * (p + 1 + 1) > (p + 1) * (p + 1)) by (nonlinear_arith);
        } else {
            assert(sqrt_floor(n) == p);
            assert(p * p <= n);
            assert(n < (p + 1) * (p + 1));
        }
    }
}

/// Any `r` with `r * r <= n < (r + 1) * (r + 1)` equals `sqrt_floor(n)`.
pub proof fn lemma_sqrt_floor_unique(n: nat, r: nat)
    requires
        r * r <= n,
        n < (r + 1) * (r + 1),
    ensures
        r == sqrt_floor(n),
{
    lemma_sqrt_floor_bounds(n);
    let s = sqrt_floor(n);
    assert(r == s) by (nonlinear_arith)
        requires
            r * r <= n,
            n < (r + 1) * (r + 1),
            s * s <= n,
            n < (s + 1) * (s + 1),
            0 <= r,
            0 <= s,
    ;
}

/// Computes the integer square root by bisection.
pub fn isqrt64(n: u64) -> (r: u64)
    ensures
        r == sqrt_floor(n as nat),
        r * r <= n,
        n < (r + 1) * (r + 1),
{
    let mut lo: u64 = 0;
    let mut hi: u64 = 4_294_967_296;
    proof {
        assert((hi as int) * (hi as int) > n as int) by (nonlinear_arith)
            requires
                hi == 4_294_967_296,
                n <= u64::MAX,
        ;
    }
    while lo + 1 < hi
        invariant
            lo < hi,
            hi <= 4_294_967_296,
            (lo as int) * (lo as int) <= n as int,
            (n as int) < (hi as int) * (hi as int),
        decreases hi - lo,
    {
        let mid: u64 = lo + (hi - lo) / 2;
        proof {
            assert((mid as int) * (mid as int) <= 4_294_967_296int * 4_294_967_296int)
                by (nonlinear_arith)
                requires
                    0 <= mid <= 4_294_967_296,
            ;
        }
        let sq: u128 = (mid as u128) * (mid as u128);
        if sq <= n as u128 {
            lo = mid;
        } else {
            hi = mid;
        }
    }
    proof {
        assert(hi == lo + 1);
        lemma_sqrt_floor_unique(n as nat, lo as nat);
    }
    lo
}

/// One tick's step length: the distance an entity moving at `speed`
/// covers in 1/`TICK_RATE` seconds.
pub open spec fn step_len(speed: i64) -> int {
    speed as int / TICK_RATE as int
}

/// Division that truncates toward zero, as the executable code divides
/// magnitudes and reapplies the sign. `d` must be positive.
pub open spec fn scale_div(v: int, d: int) -> int {
    if v >= 0 {
        v / d
    } else {
        -((-v) / d)
    }
}

/// The target point on the formation ellipse, given the cosine and sine
/// of the advanced orbit parameter (scaled by `TRIG_SCALE`).
pub open spec fn target_spec(f: Formation, cos_a: i64, sin_a: i64) -> Vec2 {
    Vec2 {
        x: (scale_div(f.radius.x * cos_a, TRIG_SCALE as int) + f.offset.x) as i64,
        y: (scale_div(f.radius.y * sin_a, TRIG_SCALE as int) + f.offset.y) as i64,
    }
}

/// One axis of the clamped move: step from `org` toward `dst` by
/// `step_mag`, stopping exactly at `dst` rather than crossing it.
pub open spec fn axis_step(org: i64, dst: i64, step_mag: int) -> int {
    if org > dst {
        if org - step_mag >= dst {
            org - step_mag
        } else {
            dst as int
        }
    } else if org < dst {
        if org + step_mag <= dst {
            org + step_mag
        } else {
            dst as int
        }
    } else {
        org as int
    }
}

/// The straight-line distance from `pos` to `dst`, rounded down.
pub open spec fn dist_floor(pos: Vec2, dst: Vec2) -> int {
    let dx = pos.x - dst.x;
    let dy = pos.y - dst.y;
    sqrt_floor((dx * dx + dy * dy) as nat) as int
}

/// The position after one tick of motion toward `dst` with step length
/// `md`: each axis moves by its share of the step, scaled by the ratio of
/// the step length to the distance, and is clamped at the target. An
/// entity already at its target does not move (the zero-distance ratio is
/// taken as zero).
pub open spec fn approach_spec(pos: Vec2, dst: Vec2, md: int) -> Vec2 {
    let dist = dist_floor(pos, dst);
    if dist == 0 {
        pos
    } else {
        let sx = iabs(pos.x - dst.x) * md / dist;
        let sy = iabs(pos.y - dst.y) * md / dist;
        Vec2 { x: axis_step(pos.x, dst.x, sx) as i64, y: axis_step(pos.y, dst.y, sy) as i64 }
    }
}

/// Whether this tick commits the advanced orbit parameter back to the
/// shared formation: the enemy is within the adaptive proximity
/// threshold of its target.
pub open spec fn commits_angle(pos: Vec2, dst: Vec2, speed: i64) -> bool {
    dist_floor(pos, dst) < step_len(speed) * speed / 20_000
}

/// The magnitude of the orbit parameter advance per tick, in
/// microradians: the step length divided by a quarter arc of the
/// ellipse's smaller radius.
pub open spec fn angle_delta_spec(f: Formation, speed: i64) -> int {
    let min_r = if f.radius.x <= f.radius.y {
        f.radius.x
    } else {
        f.radius.y
    };
    2_000_000_000_000 * step_len(speed) / (PI_MICRO * min_r)
}

/// The advanced orbit parameter: the delta is added when the formation
/// enters from the right half (positive start abscissa) and subtracted
/// otherwise. In the unreachable case that the sum leaves the i64 range
/// the parameter is left unchanged.
pub open spec fn next_angle_spec(f: Formation, speed: i64) -> int {
    let delta = angle_delta_spec(f, speed);
    let next = if f.start.x > 0 {
        f.angle + delta
    } else {
        f.angle - delta
    };
    if i64::MIN <= next <= i64::MAX {
        next
    } else {
        f.angle as int
    }
}

/// A step fraction of the distance never exceeds the step length: with
/// `dist` the rounded-down length of the whole displacement, each axis
/// share `adx * md / dist` lies in `[0, md]`.
proof fn lemma_axis_share_bounded(adx: int, ady: int, dist: int, md: int)
    requires
        0 <= adx,
        0 <= ady,
        0 <= md,
        1 <= dist,
        dist * dist <= adx * adx + ady * ady,
        adx * adx + ady * ady < (dist + 1) * (dist + 1),
    ensures
        0 <= adx * md / dist <= md,
{
    assert(adx <= dist) by (nonlinear_arith)
        requires
            0 <= adx,
            0 <= ady,
            1 <= dist,
            adx * adx + ady * ady < (dist + 1) * (dist + 1),
    ;
    vstd::arithmetic::mul::lemma_mul_inequality(adx, dist, md);
    vstd::arithmetic::mul::lemma_mul_is_commutative(dist, md);
    vstd::arithmetic::div_mod::lemma_multiply_divide_le(adx * md, dist, md);
    vstd::arithmetic::div_mod::lemma_div_pos_is_pos(adx * md, dist);
    vstd::arithmetic::mul::lemma_mul_nonnegative(adx, md);
}

/// Scales `r` by the fixed-point factor `t / TRIG_SCALE`, truncating
/// toward zero.
fn fixed_scale(r: i64, t: i64) -> (v: i64)
    requires
        0 < r <= RADIUS_LIMIT,
        -TRIG_SCALE <= t <= TRIG_SCALE,
    ensures
        v == scale_div(r as int * t as int, TRIG_SCALE as int),
        -RADIUS_LIMIT <= v <= RADIUS_LIMIT,
{
    if t >= 0 {
        proof {
            assert(r as int * t as int <= RADIUS_LIMIT as int * TRIG_SCALE as int)
                by (nonlinear_arith)
                requires
                    0 < r <= RADIUS_LIMIT,
                    0 <= t <= TRIG_SCALE,
            ;
            vstd::arithmetic::mul::lemma_mul_nonnegative(r as int, t as int);
            vstd::arithmetic::mul::lemma_mul_inequality(t as int, TRIG_SCALE as int, r as int);
            vstd::arithmetic::mul::lemma_mul_is_commutative(r as int, t as int);
            vstd::arithmetic::mul::lemma_mul_is_commutative(TRIG_SCALE as int, r as int);
            vstd::arithmetic::div_mod::lemma_multiply_divide_le(
                r as int * t as int,
                TRIG_SCALE as int,
                r as int,
            );
        }
        let p: u64 = (r as u64) * (t as u64);
        let q: u64 = p / (TRIG_SCALE as u64);
        q as i64
    } else {
        proof {
            assert(r as int * (-t as int) <= RADIUS_LIMIT as int * TRIG_SCALE as int)
                by (nonlinear_arith)
                requires
                    0 < r <= RADIUS_LIMIT,
                    0 <= -t as int <= TRIG_SCALE,
            ;
            vstd::arithmetic::mul::lemma_mul_nonnegative(r as int, -t as int);
            vstd::arithmetic::mul::lemma_mul_inequality(-t as int, TRIG_SCALE as int, r as int);
            vstd::arithmetic::mul::lemma_mul_is_commutative(r as int, -t as int);
            vstd::arithmetic::mul::lemma_mul_is_commutative(TRIG_SCALE as int, r as int);
            vstd::arithmetic::div_mod::lemma_multiply_divide_le(
                r as int * (-t as int),
                TRIG_SCALE as int,
                r as int,
            );
            vstd::arithmetic::mul::lemma_mul_unary_negation(r as int, t as int);
        }
        let p: u64 = (r as u64) * ((-t) as u64);
        let q: u64 = p / (TRIG_SCALE as u64);
        -(q as i64)
    }
}

/// Computes `next_angle_spec`: the orbit parameter this enemy proposes
/// for its formation this tick. The host takes the cosine and sine of
/// this value for `enemy_movement_step`.
pub fn next_angle(f: &Formation, speed: i64) -> (a: i64)
    requires
        f.wf(),
        0 < speed <= SPEED_LIMIT,
    ensures
        a == next_angle_spec(*f, speed),
{
    let s: i64 = ((speed as u64) / (TICK_RATE as u64)) as i64;
    let min_r: i64 = if f.radius.x <= f.radius.y {
        f.radius.x
    } else {
        f.radius.y
    };
    let num: u64 = 2_000_000_000_000u64 * (s as u64);
    let den: u64 = (PI_MICRO as u64) * (min_r as u64);
    let delta: i64 = (num / den) as i64;
    proof {
        assert(num / den <= num) by (nonlinear_arith)
            requires
                den >= 1,
        ;
    }
    if f.start.x > 0 {
        if f.angle <= i64::MAX - delta {
            f.angle + delta
        } else {
            f.angle
        }
    } else {
        if f.angle >= i64::MIN + delta {
            f.angle - delta
        } else {
            f.angle
        }
    }
}

/// One tick of motion for one enemy: move `pos` toward the target on the
/// formation ellipse by at most one step length per axis, clamped so
/// that neither coordinate crosses the target; and when the enemy is
/// within the adaptive proximity threshold of the target, commit the
/// advanced orbit parameter back to the shared formation. `cos_a` and
/// `sin_a` are the host's cosine and sine of `next_angle_spec`, scaled
/// by `TRIG_SCALE`.
pub fn enemy_movement_step(pos: &mut Vec2, speed: i64, f: &mut Formation, cos_a: i64, sin_a: i64)
    requires
        old(pos).within(ENTITY_LIMIT),
        old(f).wf(),
        0 < speed <= SPEED_LIMIT,
        -TRIG_SCALE <= cos_a <= TRIG_SCALE,
        -TRIG_SCALE <= sin_a <= TRIG_SCALE,
    ensures
        ({
            let dst = target_spec(*old(f), cos_a, sin_a);
            let md = step_len(speed);
            &&& *final(pos) == approach_spec(*old(pos), dst, md)
            &&& final(pos).within(ENTITY_LIMIT)
            &&& *final(f) == (if commits_angle(*old(pos), dst, speed) {
                Formation { angle: next_angle_spec(*old(f), speed) as i64, ..*old(f) }
            } else {
                *old(f)
            })
            &&& final(f).wf()
        }),
{
    let ghost dst = target_spec(*f, cos_a, sin_a);
    let ghost md_spec = step_len(speed);

    let na: i64 = next_angle(f, speed);
    let tx: i64 = fixed_scale(f.radius.x, cos_a) + f.offset.x;
    let ty: i64 = fixed_scale(f.radius.y, sin_a) + f.offset.y;
    proof {
        assert(tx == dst.x);
        assert(ty == dst.y);
    }

    let dx: i64 = pos.x - tx;
    let dy: i64 = pos.y - ty;
    let adx: u64 = if dx >= 0 {
        dx as u64
    } else {
        (-dx) as u64
    };
    let ady: u64 = if dy >= 0 {
        dy as u64
    } else {
        (-dy) as u64
    };
    proof {
        assert(adx as int == iabs(dx as int));
        assert(ady as int == iabs(dy as int));
        assert(adx as int * adx as int == dx as int * dx as int) by (nonlinear_arith)
            requires
                adx as int == iabs(dx as int),
        ;
        assert(ady as int * ady as int == dy as int * dy as int) by (nonlinear_arith)
            requires
                ady as int == iabs(dy as int),
        ;
        assert(adx as int * adx as int + ady as int * ady as int <= u64::MAX)
            by (nonlinear_arith)
            requires
                0 <= adx <= 2_200_000_000,
                0 <= ady <= 2_200_000_000,
        ;
    }
    let sumsq: u64 = adx * adx + ady * ady;
    let dist: u64 = isqrt64(sumsq);
    let md: u64 = (speed as u64) / (TICK_RATE as u64);
    proof {
        assert(dist as int == dist_floor(*pos, dst));
        assert(md == md_spec);
    }

    let nx: i64;
    let ny: i64;
    if dist == 0 {
        nx = pos.x;
        ny = pos.y;
    } else {
        proof {
            assert(adx as int * md as int <= 2_200_000_000int * 600_000int) by (nonlinear_arith)
                requires
                    0 <= adx <= 2_200_000_000,
                    0 <= md <= 600_000,
            ;
            assert(ady as int * md as int <= 2_200_000_000int * 600_000int) by (nonlinear_arith)
                requires
                    0 <= ady <= 2_200_000_000,
                    0 <= md <= 600_000,
            ;
            lemma_axis_share_bounded(adx as int, ady as int, dist as int, md as int);
            lemma_axis_share_bounded(ady as int, adx as int, dist as int, md as int);
        }
        let sx: u64 = adx * md / dist;
        let sy: u64 = ady * md / dist;
        if pos.x > tx {
            let c: i64 = pos.x - (sx as i64);
            nx = if c >= tx {
                c
            } else {
                tx
            };
        } else if pos.x < tx {
            let c: i64 = pos.x + (sx as i64);
            nx = if c <= tx {
                c
            } else {
                tx
            };
        } else {
            nx = pos.x;
        }
        if pos.y > ty {
            let c: i64 = pos.y - (sy as i64);
            ny = if c >= ty {
                c
            } else {
                ty
            };
        } else if pos.y < ty {
            let c: i64 = pos.y + (sy as i64);
            ny = if c <= ty {
                c
            } else {
                ty
            };
        } else {
            ny = pos.y;
        }
    }

    proof {
        assert(md as int * speed as int <= 600_000int * 100_000_000int) by (nonlinear_arith)
            requires
                0 <= md <= 600_000,
                0 <= speed <= 100_000_000,
        ;
        vstd::arithmetic::mul::lemma_mul_nonnegative(md as int, speed as int);
    }
    let thr: u64 = md * (speed as u64) / 20_000;
    if dist < thr {
        f.angle = na;
    }
    pos.x = nx;
    pos.y = ny;
}

/// Law: the motion controller never overshoots its per-axis target. One
/// tick keeps each coordinate between its old value and the target
/// coordinate — so the signed per-axis displacement toward the target
/// keeps its sign and its magnitude never grows until the target is
/// reached — and moves neither axis by more than one step length.
pub proof fn lemma_no_overshoot(pos: Vec2, dst: Vec2, md: int)
    requires
        0 <= md,
    ensures
        ({
            let np = approach_spec(pos, dst, md);
            &&& iabs(np.x - dst.x) <= iabs(pos.x - dst.x)
            &&& iabs(np.y - dst.y) <= iabs(pos.y - dst.y)
            &&& (pos.x <= dst.x ==> pos.x <= np.x <= dst.x)
            &&& (pos.x >= dst.x ==> dst.x <= np.x <= pos.x)
            &&& (pos.y <= dst.y ==> pos.y <= np.y <= dst.y)
            &&& (pos.y >= dst.y ==> dst.y <= np.y <= pos.y)
            &&& iabs(np.x - pos.x) <= md
            &&& iabs(np.y - pos.y) <= md
        }),
{
    let dx = pos.x - dst.x;
    let dy = pos.y - dst.y;
    let sum = (dx * dx + dy * dy) as nat;
    assert(dx * dx >= 0 && dy * dy >= 0) by (nonlinear_arith);
    lemma_sqrt_floor_bounds(sum);
    let dist = dist_floor(pos, dst);
    if dist != 0 {
        assert(iabs(dx) * iabs(dx) == dx * dx) by (nonlinear_arith);
        assert(iabs(dy) * iabs(dy) == dy * dy) by (nonlinear_arith);
        lemma_axis_share_bounded(iabs(dx), iabs(dy), dist, md);
        lemma_axis_share_bounded(iabs(dy), iabs(dx), dist, md);
    }
}

} // verus!
