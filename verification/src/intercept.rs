use vstd::prelude::*;
use crate::fp::{quot, quot_s, abs_i, div_q, div_qs, mul_q, isqrt, SCALE, MAX_SENSE, MAX_POINT};
use crate::vec2::{Vec2Fp, in_sense, norm2, dot_raw, sqrt_floor, is_sqrt_floor,
    lemma_sqrt_floor_unique};

verus! {

/// Muzzle speed of the main gun.
pub const BULLET_SPEED_FP: i64 = 1_000_000_000;

/// Cruise speed the craft can reach over a short chase.
pub const CRUISE_SPEED_FP: i64 = 150_000_000;

/// The empirical lead correction adds the estimated acceleration scaled
/// by one half tick, 1/120 of a second.
pub const ACCEL_LEAD_DIVISOR: i64 = 120;

/// Longest time-to-intercept the predictor accepts, in fixed-point seconds.
pub const T_MAX_FP: i64 = 3_600_000_000;

/// The single field of memory carried from one tick to the next: the
/// target velocity observed on the previous tick.
#[derive(Clone, Copy, PartialEq, Eq, Structural, Debug)]
pub struct AgentMemory {
    pub last_target_velocity: Option<Vec2Fp>,
}

/// First coefficient of the intercept quadratic: squared target speed
/// minus squared closing speed, in fixed-point units.
pub open spec fn spec_quad_a(v: Vec2Fp, s: int) -> int {
    quot(norm2(v), SCALE as int) - quot(s * s, SCALE as int)
}

/// Second coefficient: twice the dot product of target velocity and the
/// displacement from the craft to the target.
pub open spec fn spec_quad_b(d: Vec2Fp, v: Vec2Fp) -> int {
    2 * quot_s(dot_raw(v, d), SCALE as int)
}

/// Third coefficient: the squared length of that displacement.
pub open spec fn spec_quad_c(d: Vec2Fp) -> int {
    quot(norm2(d), SCALE as int)
}

/// Time until a traveler launched now at constant speed `s` meets a
/// target at displacement `d` moving at constant velocity `v`: the lower
/// root of the intercept quadratic. `None` stands for the degenerate
/// cases the design leaves open (equal speeds, no real root, a root that
/// is negative or beyond `T_MAX_FP`).
pub open spec fn spec_intercept_time(d: Vec2Fp, v: Vec2Fp, s: int) -> Option<int> {
    let a = spec_quad_a(v, s);
    let b = spec_quad_b(d, v);
    let c = spec_quad_c(d);
    if a == 0 {
        None
    } else {
        let disc = b * b - 4 * a * c;
        if disc < 0 {
            None
        } else {
            let t = quot_s((-b - sqrt_floor(disc)) * SCALE, 2 * a);
            if 0 <= t <= T_MAX_FP {
                Some(t)
            } else {
                None
            }
        }
    }
}

/// The target acceleration estimated by finite difference from the
/// previous tick's velocity sample; zero when no sample exists yet.
pub open spec fn spec_accel_est(last: Option<Vec2Fp>, v_now: Vec2Fp) -> Vec2Fp {
    match last {
        Some(p) => (Vec2Fp { x: (v_now.x - p.x) as i64, y: (v_now.y - p.y) as i64 }),
        None => (Vec2Fp { x: 0, y: 0 }),
    }
}

/// One coordinate of the predicted meeting point:
/// `p + t * (v + acc * t / 2 + acc / ACCEL_LEAD_DIVISOR)`.
pub open spec fn spec_predict_coord(p: int, v: int, acc: int, t: int) -> int {
    let inner = v + quot_s(acc * t, 2 * SCALE) + quot_s(acc, ACCEL_LEAD_DIVISOR as int);
    p + quot_s(t * inner, SCALE as int)
}

/// The predicted meeting point, or `None` when it falls outside the
/// world box kept for computed points.
pub open spec fn spec_predicted_point(p: Vec2Fp, v: Vec2Fp, acc: Vec2Fp, t: int) -> Option<
    Vec2Fp,
> {
    let px = spec_predict_coord(p.x as int, v.x as int, acc.x as int, t);
    let py = spec_predict_coord(p.y as int, v.y as int, acc.y as int, t);
    if -MAX_POINT <= px <= MAX_POINT && -MAX_POINT <= py <= MAX_POINT {
        Some(Vec2Fp { x: px as i64, y: py as i64 })
    } else {
        None
    }
}

/// The full prediction made from one tick's snapshot and the stored
/// velocity sample.
pub open spec fn spec_intercept_point(
    last: Option<Vec2Fp>,
    self_pos: Vec2Fp,
    target_pos: Vec2Fp,
    target_vel: Vec2Fp,
    s: int,
) -> Option<Vec2Fp> {
    let d = Vec2Fp {
        x: (target_pos.x - self_pos.x) as i64,
        y: (target_pos.y - self_pos.y) as i64,
    };
    match spec_intercept_time(d, target_vel, s) {
        Some(t) => spec_predicted_point(target_pos, target_vel, spec_accel_est(last, target_vel), t),
        None => None,
    }
}

/// Lower root of the intercept quadratic for displacement `d`, target
/// velocity `v` and closing speed `speed`.
pub fn intercept_time(d: Vec2Fp, v: Vec2Fp, speed: i64) -> (r: Option<i64>)
    requires
        -2 * MAX_SENSE <= d.x <= 2 * MAX_SENSE,
        -2 * MAX_SENSE <= d.y <= 2 * MAX_SENSE,
        in_sense(v),
        1 <= speed <= MAX_SENSE,
    ensures
        match r {
            Some(t) => spec_intercept_time(d, v, speed as int) == Some(t as int),
            None => spec_intercept_time(d, v, speed as int) is None,
        },
{
    let dvd: i128 = v.dot(d);
    let n2d: i128 = d.norm2_raw();
    let n2v: i128 = v.dot(v);
    let s2: i128 = mul_q(speed as i128, speed as i128);
    proof {
        assert(abs_i(dot_raw(v, d)) <= 40_000_000_000_000_000_000_000int && 0 <= norm2(d)
            <= 80_000_000_000_000_000_000_000int && 0 <= norm2(v)
            <= 20_000_000_000_000_000_000_000int && 0 <= speed as int * speed as int
            <= 10_000_000_000_000_000_000_000int) by (nonlinear_arith)
            requires
                -MAX_SENSE <= v.x <= MAX_SENSE,
                -MAX_SENSE <= v.y <= MAX_SENSE,
                -2 * MAX_SENSE <= d.x <= 2 * MAX_SENSE,
                -2 * MAX_SENSE <= d.y <= 2 * MAX_SENSE,
                1 <= speed <= MAX_SENSE,
                MAX_SENSE == 100_000_000_000,
                dot_raw(v, d) == v.x * d.x + v.y * d.y,
                norm2(d) == d.x * d.x + d.y * d.y,
                norm2(v) == v.x * v.x + v.y * v.y,
        ;
        crate::fp::lemma_quot_abs(dot_raw(v, d), SCALE as int);
        crate::fp::lemma_quot_abs(norm2(d), SCALE as int);
        crate::fp::lemma_quot_abs(norm2(v), SCALE as int);
        crate::fp::lemma_quot_abs(speed as int * speed as int, SCALE as int);
        vstd::arithmetic::div_mod::lemma_div_is_ordered(
            abs_i(dot_raw(v, d)),
            40_000_000_000_000_000_000_000int,
            SCALE as int,
        );
        vstd::arithmetic::div_mod::lemma_div_is_ordered(
            norm2(d),
            80_000_000_000_000_000_000_000int,
            SCALE as int,
        );
        vstd::arithmetic::div_mod::lemma_div_is_ordered(
            norm2(v),
            20_000_000_000_000_000_000_000int,
            SCALE as int,
        );
        vstd::arithmetic::div_mod::lemma_div_is_ordered(
            speed as int * speed as int,
            10_000_000_000_000_000_000_000int,
            SCALE as int,
        );
    }
    let a: i128 = div_q(n2v, SCALE as i128) - div_q(s2, SCALE as i128);
    let b: i128 = 2 * div_qs(dvd, SCALE as i128);
    let c: i128 = div_q(n2d, SCALE as i128);
    assert(abs_i(a as int) <= 30_000_000_000_000_000int && abs_i(b as int)
        <= 80_000_000_000_000_000int && 0 <= c <= 80_000_000_000_000_000int);
    if a == 0 {
        return None;
    }
    let bb: i128 = mul_q(b, b);
    let ac4: i128 = mul_q(4 * a, c);
    proof {
        assert(abs_i(bb as int) <= 6_400_000_000_000_000_000_000_000_000_000_000int
            && abs_i(ac4 as int) <= 9_600_000_000_000_000_000_000_000_000_000_000int)
            by (nonlinear_arith)
            requires
                abs_i(bb as int) == abs_i(b as int) * abs_i(b as int),
                abs_i(ac4 as int) == abs_i(4 * a as int) * abs_i(c as int),
                abs_i(a as int) <= 30_000_000_000_000_000int,
                abs_i(b as int) <= 80_000_000_000_000_000int,
                0 <= c <= 80_000_000_000_000_000int,
        ;
    }
    let disc: i128 = bb - ac4;
    if disc < 0 {
        return None;
    }
    let root: i128 = isqrt(disc as u128) as i128;
    proof {
        lemma_sqrt_floor_unique(disc as int, root as int);
        assert(root <= 200_000_000_000_000_000int) by (nonlinear_arith)
            requires
                root * root <= disc,
                disc <= 16_000_000_000_000_000_000_000_000_000_000_000int,
                root >= 0,
        ;
    }
    let num: i128 = mul_q(-b - root, SCALE as i128);
    let t: i128 = div_qs(num, 2 * a);
    if 0 <= t && t <= T_MAX_FP as i128 {
        Some(t as i64)
    } else {
        None
    }
}

/// The stored velocity sample, when present, lies within sensing bounds.
pub open spec fn mem_wf(m: AgentMemory) -> bool {
    match m.last_target_velocity {
        Some(p) => in_sense(p),
        None => true,
    }
}

/// One coordinate of the predicted meeting point.
fn predict_coord(p: i64, v: i64, acc: i64, t: i64) -> (r: i128)
    requires
        -MAX_SENSE <= p <= MAX_SENSE,
        -MAX_SENSE <= v <= MAX_SENSE,
        -2 * MAX_SENSE <= acc <= 2 * MAX_SENSE,
        0 <= t <= T_MAX_FP,
    ensures
        r == spec_predict_coord(p as int, v as int, acc as int, t as int),
{
    let half: i128 = div_qs(mul_q(acc as i128, t as i128), 2 * SCALE as i128);
    let lead: i128 = div_qs(acc as i128, ACCEL_LEAD_DIVISOR as i128);
    let inner: i128 = (v as i128) + half + lead;
    proof {
        assert(abs_i(acc as int * t as int) <= 720_000_000_000_000_000_000) by (nonlinear_arith)
            requires
                -2 * MAX_SENSE <= acc <= 2 * MAX_SENSE,
                0 <= t <= T_MAX_FP,
                MAX_SENSE == 100_000_000_000,
                T_MAX_FP == 3_600_000_000,
        ;
        crate::fp::lemma_quot_abs(acc as int * t as int, 2 * SCALE as int);
        vstd::arithmetic::div_mod::lemma_div_is_ordered(
            abs_i(acc as int * t as int),
            720_000_000_000_000_000_000int,
            2 * SCALE as int,
        );
        assert(abs_i(half as int) <= 720_000_000_000_000_000_000int / (2 * SCALE as int));
    }
    let prod: i128 = mul_q(t as i128, inner);
    let r: i128 = (p as i128) + div_qs(prod, SCALE as i128);
    r
}

/// Predicted meeting point `p + t * (v + acc t / 2 + acc / 120)`, or
/// `None` when a coordinate leaves the world box.
pub fn predict_point(p: Vec2Fp, v: Vec2Fp, acc: Vec2Fp, t: i64) -> (r: Option<Vec2Fp>)
    requires
        in_sense(p),
        in_sense(v),
        -2 * MAX_SENSE <= acc.x <= 2 * MAX_SENSE,
        -2 * MAX_SENSE <= acc.y <= 2 * MAX_SENSE,
        0 <= t <= T_MAX_FP,
    ensures
        r == spec_predicted_point(p, v, acc, t as int),
{
    let px: i128 = predict_coord(p.x, v.x, acc.x, t);
    let py: i128 = predict_coord(p.y, v.y, acc.y, t);
    if -MAX_POINT as i128 <= px && px <= MAX_POINT as i128 && -MAX_POINT as i128 <= py && py
        <= MAX_POINT as i128 {
        Some(Vec2Fp { x: px as i64, y: py as i64 })
    } else {
        None
    }
}

/// Full interception computation of one tick: estimate the target's
/// acceleration from the stored sample, store the fresh velocity, and
/// predict the meeting point at closing speed `speed`. The sole mutation
/// of the agent's memory.
pub fn intercept_point(
    mem: &mut AgentMemory,
    self_pos: Vec2Fp,
    target_pos: Vec2Fp,
    target_vel: Vec2Fp,
    speed: i64,
) -> (r: Option<Vec2Fp>)
    requires
        mem_wf(*old(mem)),
        in_sense(self_pos),
        in_sense(target_pos),
        in_sense(target_vel),
        1 <= speed <= MAX_SENSE,
    ensures
        mem_wf(*final(mem)),
        final(mem).last_target_velocity == Some(target_vel),
        r == spec_intercept_point(
            old(mem).last_target_velocity,
            self_pos,
            target_pos,
            target_vel,
            speed as int,
        ),
{
    let d = target_pos.sub(self_pos);
    let acc: Vec2Fp = match mem.last_target_velocity {
        Some(p) => target_vel.sub(p),
        None => Vec2Fp::zero(),
    };
    mem.last_target_velocity = Some(target_vel);
    match intercept_time(d, target_vel, speed) {
        Some(t) => predict_point(target_pos, target_vel, acc, t),
        None => None,
    }
}

/// For a stationary target dead ahead at distance `dist`, the intercept
/// time is exactly the straight-line time of flight `dist / speed`,
/// rounded down to the fixed-point grid: `speed * t` never exceeds the
/// scaled distance and falls short of it by less than one `speed`.
/// Stated for whole-unit distances and speeds (multiples of a thousandth
/// of a unit are exact in the quadratic's intermediate scaling).
pub proof fn lemma_stationary_target_time(dist: i64, speed: i64)
    requires
        1000 <= speed <= MAX_SENSE,
        speed % 1000 == 0,
        0 < dist <= 2 * MAX_SENSE,
        dist % 1000 == 0,
        dist * SCALE <= T_MAX_FP * speed,
    ensures
        spec_intercept_time(
            Vec2Fp { x: dist, y: 0 },
            Vec2Fp { x: 0, y: 0 },
            speed as int,
        ) == Some(quot(dist * SCALE, speed as int)),
        speed * quot(dist * SCALE, speed as int) <= dist * SCALE,
        dist * SCALE < speed * (quot(dist * SCALE, speed as int) + 1),
{
    let d = Vec2Fp { x: dist, y: 0 };
    let v = Vec2Fp { x: 0, y: 0 };
    let s = speed as int;
    let sig = s / 1000;
    let del = dist as int / 1000;
    vstd::arithmetic::div_mod::lemma_fundamental_div_mod(s, 1000);
    vstd::arithmetic::div_mod::lemma_fundamental_div_mod(dist as int, 1000);
    assert(s == 1000 * sig && dist == 1000 * del && sig >= 1 && del >= 1) by {
        vstd::arithmetic::div_mod::lemma_div_pos_is_pos(s, 1000);
        vstd::arithmetic::div_mod::lemma_div_pos_is_pos(dist as int, 1000);
        assert(sig != 0 && del != 0) by (nonlinear_arith)
            requires
                s == 1000 * sig + s % 1000,
                s % 1000 == 0,
                dist == 1000 * del + dist as int % 1000,
                dist as int % 1000 == 0,
                s >= 1000,
                dist > 0,
        ;
    }
    assert(norm2(v) == 0 && dot_raw(v, d) == 0 && norm2(d) == dist * dist);
    assert(quot(0, SCALE as int) == 0 && quot_s(0int, SCALE as int) == 0) by {
        vstd::arithmetic::div_mod::lemma_div_of0(SCALE as int);
    }
    assert(s * s == SCALE * (sig * sig) && dist * dist == SCALE * (del * del))
        by (nonlinear_arith)
        requires
            s == 1000 * sig,
            dist == 1000 * del,
            SCALE == 1_000_000,
    ;
    vstd::arithmetic::div_mod::lemma_div_multiples_vanish(sig * sig, SCALE as int);
    vstd::arithmetic::div_mod::lemma_div_multiples_vanish(del * del, SCALE as int);
    assert(sig * sig >= 1 && del * del >= 1 && sig * del >= 1) by (nonlinear_arith)
        requires
            sig >= 1,
            del >= 1,
    ;
    let a = spec_quad_a(v, s);
    let c = spec_quad_c(d);
    assert(a == -(sig * sig) && spec_quad_b(d, v) == 0 && c == del * del);
    let disc = 0 - 4 * a * c;
    assert(disc == 4 * (sig * sig) * (del * del) && disc == (2 * (sig * del)) * (2 * (sig
        * del)) && (2 * (sig * del) + 1) * (2 * (sig * del) + 1) > disc) by (nonlinear_arith)
        requires
            a == -(sig * sig),
            c == del * del,
            disc == 0 - 4 * a * c,
            sig >= 1,
            del >= 1,
    ;
    assert(is_sqrt_floor(disc, 2 * (sig * del)));
    lemma_sqrt_floor_unique(disc, 2 * (sig * del));
    let root = 2 * (sig * del);
    let t = quot_s((0 - root) * SCALE, 2 * a);
    assert((0 - root) * SCALE == -(2 * (sig * del) * SCALE) && 2 * a == -(2 * (sig * sig)))
        by (nonlinear_arith)
        requires
            root == 2 * (sig * del),
            a == -(sig * sig),
            SCALE == 1_000_000,
    ;
    assert(t == quot(2 * (sig * del) * SCALE, 2 * (sig * sig))) by {
        assert(2 * (sig * del) * SCALE >= 0) by (nonlinear_arith)
            requires
                sig * del >= 1,
                SCALE == 1_000_000,
        ;
    }
    assert(2 * (sig * del) * SCALE == (2 * sig) * (del * SCALE) && 2 * (sig * sig) == (2 * sig)
        * sig) by (nonlinear_arith);
    vstd::arithmetic::div_mod::lemma_div_multiples_vanish_quotient(2 * sig, del * SCALE, sig);
    assert(del * SCALE >= 0) by (nonlinear_arith)
        requires
            del >= 1,
            SCALE == 1_000_000,
    ;
    assert(t == quot(del * SCALE, sig)) by {
        vstd::arithmetic::div_mod::lemma_div_pos_is_pos(del * SCALE, sig);
    }
    assert(1000 * (del * SCALE) == dist * SCALE && 1000 * sig == s) by (nonlinear_arith)
        requires
            dist == 1000 * del,
            s == 1000 * sig,
            SCALE == 1_000_000,
    ;
    vstd::arithmetic::div_mod::lemma_div_multiples_vanish_quotient(1000, del * SCALE, sig);
    assert(dist * SCALE >= 0);
    assert(t == quot(dist * SCALE, s)) by {
        vstd::arithmetic::div_mod::lemma_div_pos_is_pos(dist * SCALE, s);
    }
    vstd::arithmetic::div_mod::lemma_fundamental_div_mod(dist * SCALE, s);
    vstd::arithmetic::div_mod::lemma_mod_bound(dist * SCALE, s);
    assert(s * t <= dist * SCALE && dist * SCALE < s * (t + 1)) by (nonlinear_arith)
        requires
            dist * SCALE == s * t + (dist * SCALE) % s,
            0 <= (dist * SCALE) % s < s,
    ;
    assert(0 <= t && t <= T_MAX_FP) by {
        vstd::arithmetic::div_mod::lemma_div_pos_is_pos(dist * SCALE, s);
        vstd::arithmetic::div_mod::lemma_div_is_ordered(dist * SCALE, T_MAX_FP * s, s);
        assert(T_MAX_FP * s == s * T_MAX_FP);
        vstd::arithmetic::div_mod::lemma_div_multiples_vanish(T_MAX_FP as int, s);
    }
}

/// When the scaled distance divides evenly by the speed, the stationary
/// intercept satisfies `dist == speed * t` exactly.
pub proof fn lemma_stationary_target_time_exact(dist: i64, speed: i64)
    requires
        1000 <= speed <= MAX_SENSE,
        speed % 1000 == 0,
        0 < dist <= 2 * MAX_SENSE,
        dist % 1000 == 0,
        dist * SCALE <= T_MAX_FP * speed,
        (dist * SCALE) % (speed as int) == 0,
    ensures
        spec_intercept_time(
            Vec2Fp { x: dist, y: 0 },
            Vec2Fp { x: 0, y: 0 },
            speed as int,
        ) == Some(quot(dist * SCALE, speed as int)),
        speed * quot(dist * SCALE, speed as int) == dist * SCALE,
{
    lemma_stationary_target_time(dist, speed);
    vstd::arithmetic::div_mod::lemma_fundamental_div_mod(dist * SCALE, speed as int);
}

/// For a target whose velocity was the same on two consecutive ticks,
/// the estimated acceleration is zero, the correction terms of the
/// prediction vanish, and the predicted point is exactly the target's
/// position advanced by `t` times its velocity.
pub proof fn lemma_constant_velocity_prediction(p: Vec2Fp, v: Vec2Fp, t: int)
    requires
        in_sense(p),
        in_sense(v),
        0 <= t <= T_MAX_FP,
    ensures
        spec_accel_est(Some(v), v) == (Vec2Fp { x: 0, y: 0 }),
        spec_predict_coord(p.x as int, v.x as int, 0, t) == p.x + quot_s(
            t * v.x,
            SCALE as int,
        ),
        spec_predict_coord(p.y as int, v.y as int, 0, t) == p.y + quot_s(
            t * v.y,
            SCALE as int,
        ),
{
    assert(0 * t == 0) by (nonlinear_arith);
    assert(quot_s(0int, 2 * SCALE) == 0 && quot_s(0int, ACCEL_LEAD_DIVISOR as int) == 0) by {
        vstd::arithmetic::div_mod::lemma_div_of0(2 * SCALE as int);
        vstd::arithmetic::div_mod::lemma_div_of0(ACCEL_LEAD_DIVISOR as int);
    }
}

} // verus!
