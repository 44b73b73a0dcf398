use vstd::prelude::*;
use crate::fp::{quot, quot_s, abs_i, sgn, div_q, div_qs, mul_q, abs_q, sgn_q, SCALE,
    TICKS_PER_SECOND, MAX_SENSE};
use crate::vec2::{Vec2Fp, in_sense, in_point, norm2, sqrt_floor, is_sqrt_floor};
use crate::angles::{PI_FP, spec_atan2, spec_angle_diff, atan2_fp, angle_diff};
use crate::turning::DT_FP;

verus! {

/// Heading error under which boosting toward the travel target is allowed.
pub const BOOST_ACCURACY_FP: i64 = 5_000;

/// Heading bias applied against strong lateral drift.
pub const DRIFT_KICK_FP: i64 = 500_000;

/// Drift counts as strong past this many tick-lengths of full lateral
/// acceleration.
pub const DRIFT_FACTOR: i64 = 10;

/// Per-tick acceleration limits read from the simulation.
#[derive(Clone, Copy, PartialEq, Eq, Structural, Debug)]
pub struct Limits {
    pub max_forward: i64,
    pub max_backward: i64,
    pub max_lateral: i64,
    pub max_angular: i64,
}

pub open spec fn limits_wf(l: Limits) -> bool {
    &&& 1 <= l.max_forward <= MAX_SENSE
    &&& 1 <= l.max_backward <= MAX_SENSE
    &&& 1 <= l.max_lateral <= MAX_SENSE
    &&& 1 <= l.max_angular <= MAX_SENSE
}

/// What the craft's nose is steered toward while traveling.
#[derive(Clone, Copy, PartialEq, Eq, Structural, Debug)]
pub enum Facing {
    /// Face the direction of travel, with the drift-correcting bias.
    Travel,
    /// Face a separate aim point.
    At(Vec2Fp),
}

/// One tick's linear-motion decision: the acceleration command, its
/// radial/lateral decomposition, the boost switch, and the heading handed
/// to the angular controller.
#[derive(Clone, Copy, PartialEq, Eq, Structural, Debug)]
pub struct MotionCommand {
    pub accel: Vec2Fp,
    pub boost: bool,
    pub braking: bool,
    pub heading_target: i64,
    pub radial_scalar: i64,
    pub lateral_scalar: i64,
}

/// Displacement from the craft to its travel target.
pub open spec fn spec_displ(pos: Vec2Fp, target: Vec2Fp) -> Vec2Fp {
    Vec2Fp { x: (target.x - pos.x) as i64, y: (target.y - pos.y) as i64 }
}

/// Components of the unit vector along `d`, in fixed-point units.
pub open spec fn spec_ux(d: Vec2Fp) -> int {
    quot_s(d.x * SCALE, sqrt_floor(norm2(d)))
}

pub open spec fn spec_uy(d: Vec2Fp) -> int {
    quot_s(d.y * SCALE, sqrt_floor(norm2(d)))
}

/// Velocity component along the lateral axis (the travel direction
/// rotated a quarter turn counter-clockwise).
pub open spec fn spec_vlat(d: Vec2Fp, v: Vec2Fp) -> int {
    quot_s(-spec_uy(d) * v.x + spec_ux(d) * v.y, SCALE as int)
}

/// Stopping distance from the current speed at full backward
/// acceleration, with the half-tick correction term.
pub open spec fn spec_brake_dist(speed: int, a_back: int) -> int {
    let t_left = quot(speed * SCALE, a_back);
    quot(speed * t_left, SCALE as int) - quot_s(
        quot(a_back * t_left, SCALE as int) * (t_left + DT_FP),
        2 * SCALE,
    )
}

/// The craft is close enough that it must brake now to stop on the target.
pub open spec fn spec_braking(d: Vec2Fp, v: Vec2Fp, a_back: int) -> bool {
    sqrt_floor(norm2(d)) <= spec_brake_dist(sqrt_floor(norm2(v)), a_back)
}

/// Deceleration needed to stop on the target this tick.
pub open spec fn spec_required_acc(d: Vec2Fp, v: Vec2Fp) -> int {
    abs_i(sqrt_floor(norm2(d)) - quot(sqrt_floor(norm2(v)), TICKS_PER_SECOND as int))
        * TICKS_PER_SECOND * TICKS_PER_SECOND
}

/// Signed radial acceleration: full forward when closing, the needed
/// deceleration (clamped to the backward limit) when braking.
pub open spec fn spec_radial(d: Vec2Fp, v: Vec2Fp, l: Limits) -> int {
    if spec_braking(d, v, l.max_backward as int) {
        let req = spec_required_acc(d, v);
        if req < l.max_backward {
            -req
        } else {
            -l.max_backward as int
        }
    } else {
        l.max_forward as int
    }
}

/// The heading handed to the angular controller: the aim point's bearing
/// in the aim-at-point variant; the travel bearing, biased against strong
/// lateral drift, otherwise.
pub open spec fn spec_heading_target(
    pos: Vec2Fp,
    d: Vec2Fp,
    v: Vec2Fp,
    facing: Facing,
    max_lat: int,
) -> int {
    match facing {
        Facing::At(o) => spec_atan2(spec_displ(pos, o)),
        Facing::Travel => {
            let vlat = spec_vlat(d, v);
            if abs_i(vlat) > quot(DRIFT_FACTOR * max_lat, TICKS_PER_SECOND as int) {
                spec_atan2(d) + -DRIFT_KICK_FP * sgn(vlat)
            } else {
                spec_atan2(d)
            }
        },
    }
}

/// Boost is allowed only while closing with the nose already aligned
/// with the travel direction.
pub open spec fn spec_boost(d: Vec2Fp, v: Vec2Fp, heading: int, l: Limits) -> bool {
    !spec_braking(d, v, l.max_backward as int) && abs_i(
        spec_angle_diff(heading, spec_atan2(d)),
    ) < BOOST_ACCURACY_FP
}

/// One coordinate of the commanded acceleration: the radial part plus
/// the drift-cancelling lateral part.
pub open spec fn spec_accel_x(d: Vec2Fp, v: Vec2Fp, l: Limits) -> int {
    quot_s(spec_ux(d) * spec_radial(d, v, l), SCALE as int) + quot_s(
        -spec_uy(d) * -spec_vlat(d, v),
        SCALE as int,
    )
}

pub open spec fn spec_accel_y(d: Vec2Fp, v: Vec2Fp, l: Limits) -> int {
    quot_s(spec_uy(d) * spec_radial(d, v, l), SCALE as int) + quot_s(
        spec_ux(d) * -spec_vlat(d, v),
        SCALE as int,
    )
}

/// The whole linear-motion decision of one tick.
pub open spec fn spec_motion(
    pos: Vec2Fp,
    vel: Vec2Fp,
    heading: int,
    target: Vec2Fp,
    facing: Facing,
    l: Limits,
) -> MotionCommand {
    let d = spec_displ(pos, target);
    (MotionCommand {
        accel: Vec2Fp {
            x: spec_accel_x(d, vel, l) as i64,
            y: spec_accel_y(d, vel, l) as i64,
        },
        boost: spec_boost(d, vel, heading, l),
        braking: spec_braking(d, vel, l.max_backward as int),
        heading_target: spec_heading_target(pos, d, vel, facing, l.max_lateral as int) as i64,
        radial_scalar: spec_radial(d, vel, l) as i64,
        lateral_scalar: -spec_vlat(d, vel) as i64,
    })
}

/// Unified linear-motion controller: one tick's acceleration command,
/// boost decision and heading target for traveling to `target` while
/// facing per `facing`.
pub fn plan_motion(
    pos: Vec2Fp,
    vel: Vec2Fp,
    heading: i64,
    target: Vec2Fp,
    facing: Facing,
    l: Limits,
) -> (r: MotionCommand)
    requires
        in_sense(pos),
        in_sense(vel),
        in_point(target),
        (facing matches Facing::At(o) ==> in_point(o)),
        !(target.x == pos.x && target.y == pos.y),
        -MAX_SENSE <= heading <= MAX_SENSE,
        limits_wf(l),
    ensures
        r == spec_motion(pos, vel, heading as int, target, facing, l),
        -PI_FP - DRIFT_KICK_FP <= r.heading_target <= PI_FP + DRIFT_KICK_FP,
{
    let d = target.sub(pos);
    let len: i64 = d.length();
    proof {
        assert(norm2(d) >= 1 && abs_i(d.x as int) <= 11_000_000_000_000int && abs_i(d.y as int)
            <= 11_000_000_000_000int) by (nonlinear_arith)
            requires
                d.x != 0 || d.y != 0,
                norm2(d) == d.x * d.x + d.y * d.y,
                -11_000_000_000_000int <= d.x <= 11_000_000_000_000int,
                -11_000_000_000_000int <= d.y <= 11_000_000_000_000int,
        ;
        assert(1 <= len && abs_i(d.x as int) <= len && abs_i(d.y as int) <= len)
            by (nonlinear_arith)
            requires
                is_sqrt_floor(norm2(d), len as int),
                norm2(d) == d.x * d.x + d.y * d.y,
                norm2(d) >= 1,
        ;
    }
    let ux: i128 = div_qs(mul_q(d.x as i128, SCALE as i128), len as i128);
    let uy: i128 = div_qs(mul_q(d.y as i128, SCALE as i128), len as i128);
    proof {
        lemma_unit_bound(d.x as int, len as int);
        lemma_unit_bound(d.y as int, len as int);
        assert(ux == spec_ux(d) && uy == spec_uy(d));
        assert(-SCALE <= ux <= SCALE && -SCALE <= uy <= SCALE);
    }
    let vlx: i128 = mul_q(-uy, vel.x as i128);
    let vly: i128 = mul_q(ux, vel.y as i128);
    proof {
        assert(abs_i(vlx as int) <= 100_000_000_000_000_000int && abs_i(vly as int)
            <= 100_000_000_000_000_000int) by (nonlinear_arith)
            requires
                abs_i(vlx as int) == abs_i(-uy as int) * abs_i(vel.x as int),
                abs_i(vly as int) == abs_i(ux as int) * abs_i(vel.y as int),
                -SCALE <= ux <= SCALE,
                -SCALE <= uy <= SCALE,
                -MAX_SENSE <= vel.x <= MAX_SENSE,
                -MAX_SENSE <= vel.y <= MAX_SENSE,
                SCALE == 1_000_000,
                MAX_SENSE == 100_000_000_000,
        ;
    }
    let vlat: i128 = div_qs(vlx + vly, SCALE as i128);
    proof {
        assert(vlat == spec_vlat(d, vel));
        assert(abs_i(vlat as int) <= 200_000_000_000_000_000int);
    }
    let travel_bearing: i64 = atan2_fp(d);
    let heading_target: i64 = match facing {
        Facing::At(o) => atan2_fp(o.sub(pos)),
        Facing::Travel => {
            let thresh: i128 = div_q(
                mul_q(DRIFT_FACTOR as i128, l.max_lateral as i128),
                TICKS_PER_SECOND as i128,
            );
            if abs_q(vlat) > thresh {
                let kick: i128 = mul_q(-(DRIFT_KICK_FP as i128), sgn_q(vlat));
                proof {
                    assert(abs_i(kick as int) <= DRIFT_KICK_FP) by (nonlinear_arith)
                        requires
                            abs_i(kick as int) == abs_i(-(DRIFT_KICK_FP as i128) as int) * abs_i(
                                sgn(vlat as int),
                            ),
                            DRIFT_KICK_FP == 500_000,
                            -1 <= sgn(vlat as int) <= 1,
                    ;
                }
                ((travel_bearing as i128) + kick) as i64
            } else {
                travel_bearing
            }
        },
    };
    let speed: i64 = vel.length();
    proof {
        assert(speed <= 200_000_000_000int) by (nonlinear_arith)
            requires
                is_sqrt_floor(norm2(vel), speed as int),
                norm2(vel) == vel.x * vel.x + vel.y * vel.y,
                -MAX_SENSE <= vel.x <= MAX_SENSE,
                -MAX_SENSE <= vel.y <= MAX_SENSE,
                MAX_SENSE == 100_000_000_000,
        ;
    }
    let t_left: i128 = div_q(mul_q(speed as i128, SCALE as i128), l.max_backward as i128);
    proof {
        crate::fp::lemma_quot_abs(speed as int * SCALE as int, l.max_backward as int);
        vstd::arithmetic::mul::lemma_mul_is_commutative(
            l.max_backward as int,
            quot(speed as int * SCALE as int, l.max_backward as int),
        );
        assert(0 <= t_left <= speed as int * SCALE as int);
        assert(t_left * l.max_backward as int <= speed as int * SCALE as int) by (nonlinear_arith)
            requires
                l.max_backward as int * t_left as int <= speed as int * SCALE as int,
        ;
        assert(speed as int * SCALE as int <= 200_000_000_000_000_000int) by (nonlinear_arith)
            requires
                0 <= speed <= 200_000_000_000int,
                SCALE == 1_000_000,
        ;
    }
    let term1: i128 = div_q(mul_q(speed as i128, t_left), SCALE as i128);
    let q1: i128 = div_q(mul_q(l.max_backward as i128, t_left), SCALE as i128);
    proof {
        vstd::arithmetic::div_mod::lemma_div_is_ordered(
            l.max_backward as int * t_left as int,
            speed as int * SCALE as int,
            SCALE as int,
        );
        assert(speed as int * SCALE as int == SCALE as int * speed as int);
        vstd::arithmetic::div_mod::lemma_div_multiples_vanish(speed as int, SCALE as int);
        assert(0 <= l.max_backward as int * t_left as int) by (nonlinear_arith)
            requires
                l.max_backward >= 1,
                t_left >= 0,
        ;
        crate::fp::lemma_quot_abs(l.max_backward as int * t_left as int, SCALE as int);
        assert(0 <= q1 <= speed);
    }
    let term2: i128 = div_qs(mul_q(q1, t_left + DT_FP as i128), 2 * (SCALE as i128));
    let dist: i128 = term1 - term2;
    let braking: bool = (len as i128) <= dist;
    proof {
        assert(dist == spec_brake_dist(speed as int, l.max_backward as int));
        assert(braking == spec_braking(d, vel, l.max_backward as int));
    }
    let radial: i128 = if braking {
        let vdt: i128 = div_q(speed as i128, TICKS_PER_SECOND as i128);
        let diff: i128 = abs_q((len as i128) - vdt);
        let required: i128 = mul_q(
            mul_q(diff, TICKS_PER_SECOND as i128),
            TICKS_PER_SECOND as i128,
        );
        proof {
            assert(required == spec_required_acc(d, vel) && required >= 0) by (nonlinear_arith)
                requires
                    required == diff as int * TICKS_PER_SECOND * TICKS_PER_SECOND,
                    diff >= 0,
                    TICKS_PER_SECOND == 60,
                    spec_required_acc(d, vel) == abs_i(
                        len - quot(speed as int, TICKS_PER_SECOND as int),
                    ) * TICKS_PER_SECOND * TICKS_PER_SECOND,
                    diff as int == abs_i(len - quot(speed as int, TICKS_PER_SECOND as int)),
            ;
        }
        if required < l.max_backward as i128 {
            -required
        } else {
            -(l.max_backward as i128)
        }
    } else {
        l.max_forward as i128
    };
    let boost: bool = if braking {
        false
    } else {
        let align: i64 = angle_diff(heading, travel_bearing);
        let a_abs: i64 = if align >= 0 {
            align
        } else {
            -align
        };
        a_abs < BOOST_ACCURACY_FP
    };
    proof {
        assert(-MAX_SENSE <= radial <= MAX_SENSE);
        assert(radial == spec_radial(d, vel, l));
        assert(boost == spec_boost(d, vel, heading as int, l));
    }
    let lat: i128 = -vlat;
    let pux: i128 = mul_q(ux, radial);
    let puy: i128 = mul_q(uy, radial);
    let plx: i128 = mul_q(-uy, lat);
    let ply: i128 = mul_q(ux, lat);
    let rx: i128 = div_qs(pux, SCALE as i128);
    let ry: i128 = div_qs(puy, SCALE as i128);
    let lx: i128 = div_qs(plx, SCALE as i128);
    let ly: i128 = div_qs(ply, SCALE as i128);
    let ax: i128 = rx + lx;
    let ay: i128 = ry + ly;
    proof {
        assert(abs_i(pux as int) <= 100_000_000_000_000_000int && abs_i(puy as int)
            <= 100_000_000_000_000_000int && abs_i(plx as int)
            <= 200_000_000_000_000_000_000_000int && abs_i(ply as int)
            <= 200_000_000_000_000_000_000_000int) by (nonlinear_arith)
            requires
                abs_i(pux as int) == abs_i(ux as int) * abs_i(radial as int),
                abs_i(puy as int) == abs_i(uy as int) * abs_i(radial as int),
                abs_i(plx as int) == abs_i(-uy as int) * abs_i(lat as int),
                abs_i(ply as int) == abs_i(ux as int) * abs_i(lat as int),
                -SCALE <= ux <= SCALE,
                -SCALE <= uy <= SCALE,
                -MAX_SENSE <= radial <= MAX_SENSE,
                abs_i(lat as int) <= 200_000_000_000_000_000int,
                SCALE == 1_000_000,
                MAX_SENSE == 100_000_000_000,
        ;
        assert(ax == spec_accel_x(d, vel, l) && ay == spec_accel_y(d, vel, l));
    }
    MotionCommand {
        accel: Vec2Fp { x: ax as i64, y: ay as i64 },
        boost,
        braking,
        heading_target,
        radial_scalar: radial as i64,
        lateral_scalar: lat as i64,
    }
}

/// A full-burn dash: point the nose along the displacement, boost once
/// aligned, and command the raw displacement as the acceleration vector.
#[derive(Clone, Copy, PartialEq, Eq, Structural, Debug)]
pub struct DashCommand {
    pub accel: Vec2Fp,
    pub boost: bool,
    pub heading_target: i64,
}

pub open spec fn spec_dash(pos: Vec2Fp, heading: int, target: Vec2Fp) -> DashCommand {
    let d = spec_displ(pos, target);
    (DashCommand {
        accel: d,
        boost: abs_i(spec_angle_diff(heading, spec_atan2(d))) < BOOST_ACCURACY_FP,
        heading_target: spec_atan2(d) as i64,
    })
}

/// Dash through a point at full burn.
pub fn dash_through(pos: Vec2Fp, heading: i64, target: Vec2Fp) -> (r: DashCommand)
    requires
        in_sense(pos),
        in_point(target),
        -MAX_SENSE <= heading <= MAX_SENSE,
    ensures
        r == spec_dash(pos, heading as int, target),
        -PI_FP <= r.heading_target <= PI_FP,
{
    let d = target.sub(pos);
    let bearing: i64 = atan2_fp(d);
    let align: i64 = angle_diff(heading, bearing);
    let a_abs: i64 = if align >= 0 {
        align
    } else {
        -align
    };
    DashCommand { accel: d, boost: a_abs < BOOST_ACCURACY_FP, heading_target: bearing }
}

/// A fixed-point unit component never exceeds one unit in magnitude.
proof fn lemma_unit_bound(c: int, len: int)
    requires
        len >= 1,
        abs_i(c) <= len,
    ensures
        abs_i(quot_s(c * SCALE, len)) <= SCALE,
{
    crate::fp::lemma_quot_abs(c * SCALE, len);
    assert(abs_i(c * SCALE) == abs_i(c) * SCALE && abs_i(c) * SCALE <= len * SCALE)
        by (nonlinear_arith)
        requires
            abs_i(c) <= len,
            len >= 1,
            SCALE == 1_000_000,
    ;
    vstd::arithmetic::div_mod::lemma_div_is_ordered(abs_i(c) * SCALE, len * SCALE, len);
    vstd::arithmetic::mul::lemma_mul_is_commutative(len, SCALE as int);
    vstd::arithmetic::div_mod::lemma_div_multiples_vanish(SCALE as int, len);
}

/// The motion controller respects the acceleration limits: the radial
/// component never exceeds the forward limit while closing nor the
/// backward limit while braking, and the lateral component always equals
/// the lateral drift reversed.
pub proof fn lemma_motion_limits(
    pos: Vec2Fp,
    vel: Vec2Fp,
    heading: int,
    target: Vec2Fp,
    facing: Facing,
    l: Limits,
)
    requires
        limits_wf(l),
        in_sense(pos),
        in_sense(vel),
        in_point(target),
        !(target.x == pos.x && target.y == pos.y),
    ensures
        -l.max_backward <= spec_motion(pos, vel, heading, target, facing, l).radial_scalar
            <= l.max_forward,
        spec_motion(pos, vel, heading, target, facing, l).braking ==> spec_motion(
            pos,
            vel,
            heading,
            target,
            facing,
            l,
        ).radial_scalar <= 0 && !spec_motion(pos, vel, heading, target, facing, l).boost,
        !spec_motion(pos, vel, heading, target, facing, l).braking ==> spec_motion(
            pos,
            vel,
            heading,
            target,
            facing,
            l,
        ).radial_scalar == l.max_forward,
        spec_motion(pos, vel, heading, target, facing, l).lateral_scalar == -spec_vlat(
            spec_displ(pos, target),
            vel,
        ),
{
    let d = spec_displ(pos, target);
    let req = spec_required_acc(d, vel);
    assert(req >= 0) by (nonlinear_arith)
        requires
            req == abs_i(
                sqrt_floor(norm2(d)) - quot(sqrt_floor(norm2(vel)), TICKS_PER_SECOND as int),
            ) * TICKS_PER_SECOND * TICKS_PER_SECOND,
            TICKS_PER_SECOND == 60,
    ;
    assert(norm2(d) >= 1) by (nonlinear_arith)
        requires
            d.x != 0 || d.y != 0,
            norm2(d) == d.x * d.x + d.y * d.y,
    ;
    crate::vec2::lemma_sqrt_floor_exists(norm2(d));
    let len = sqrt_floor(norm2(d));
    assert(1 <= len && abs_i(d.x as int) <= len && abs_i(d.y as int) <= len) by (nonlinear_arith)
        requires
            is_sqrt_floor(norm2(d), len),
            norm2(d) == d.x * d.x + d.y * d.y,
            norm2(d) >= 1,
    ;
    lemma_unit_bound(d.x as int, len);
    lemma_unit_bound(d.y as int, len);
    let ux = spec_ux(d);
    let uy = spec_uy(d);
    let raw = -uy * vel.x + ux * vel.y;
    assert(abs_i(raw) <= 200_000_000_000_000_000int) by (nonlinear_arith)
        requires
            raw == -uy * vel.x + ux * vel.y,
            abs_i(ux) <= SCALE,
            abs_i(uy) <= SCALE,
            -MAX_SENSE <= vel.x <= MAX_SENSE,
            -MAX_SENSE <= vel.y <= MAX_SENSE,
            SCALE == 1_000_000,
            MAX_SENSE == 100_000_000_000,
    ;
    crate::fp::lemma_quot_abs(raw, SCALE as int);
    assert(abs_i(spec_vlat(d, vel)) <= 200_000_000_000_000_000int);
}

} // verus!
