use vstd::prelude::*;
use crate::fp::{abs_i, MAX_SENSE};
use crate::vec2::{Vec2Fp, in_sense, in_point, dot_raw};
use crate::angles::{spec_atan2, spec_angle_diff, atan2_fp, angle_diff};
use crate::turning::{spec_turn, turn_torque};
use crate::motion::{Limits, limits_wf, Facing, spec_motion, spec_displ, plan_motion};
use crate::intercept::{AgentMemory, mem_wf, spec_intercept_point, spec_accel_est,
    intercept_time, predict_point, intercept_point, BULLET_SPEED_FP, CRUISE_SPEED_FP};

verus! {

/// Heading error under which the gun is fired.
pub const FIRE_ACCURACY_FP: i64 = 50_000;

/// Empirical lead compensation added to the aim bearing while holding
/// position against a closing target.
pub const AIM_COMPENSATION_FP: i64 = 10_000;

/// How the target moves relative to the craft, recomputed fresh every
/// tick from the current snapshot.
#[derive(Clone, Copy, PartialEq, Eq, Structural, Debug)]
pub enum Engagement {
    /// The target closes in: hold position and suppress it.
    ClosingThreat,
    /// The target retreats or drifts: pursue and fire.
    Pursuit,
}

/// What the tick asks of the boost ability.
#[derive(Clone, Copy, PartialEq, Eq, Structural, Debug)]
pub enum BoostCommand {
    Activate,
    Deactivate,
    Keep,
}

/// Everything the sensing layer hands over each tick.
#[derive(Clone, Copy, PartialEq, Eq, Structural, Debug)]
pub struct Sensed {
    pub position: Vec2Fp,
    pub velocity: Vec2Fp,
    pub heading: i64,
    pub angular_velocity: i64,
    pub target_position: Vec2Fp,
    pub target_velocity: Vec2Fp,
    pub limits: Limits,
}

pub open spec fn sensed_wf(s: Sensed) -> bool {
    &&& in_sense(s.position)
    &&& in_sense(s.velocity)
    &&& in_sense(s.target_position)
    &&& in_sense(s.target_velocity)
    &&& -MAX_SENSE <= s.heading <= MAX_SENSE
    &&& -MAX_SENSE <= s.angular_velocity <= MAX_SENSE
    &&& limits_wf(s.limits)
}

/// Everything the tick asks of the actuators.
#[derive(Clone, Copy, PartialEq, Eq, Structural, Debug)]
pub struct TickCommand {
    pub accel: Vec2Fp,
    pub torque: i64,
    pub boost: BoostCommand,
    pub fire: bool,
    pub aim: Vec2Fp,
}

/// The engagement split: the target counts as a closing threat exactly
/// when its velocity points against the displacement from the craft to
/// the target.
pub open spec fn spec_classify(self_pos: Vec2Fp, target_pos: Vec2Fp, target_vel: Vec2Fp)
    -> Engagement {
    if dot_raw(target_vel, spec_displ(self_pos, target_pos)) < 0 {
        Engagement::ClosingThreat
    } else {
        Engagement::Pursuit
    }
}

/// Pure per-tick classification of the target's motion.
pub fn classify(self_pos: Vec2Fp, target_pos: Vec2Fp, target_vel: Vec2Fp) -> (r: Engagement)
    requires
        in_sense(self_pos),
        in_sense(target_pos),
        in_sense(target_vel),
    ensures
        r == spec_classify(self_pos, target_pos, target_vel),
        r is ClosingThreat <==> dot_raw(target_vel, spec_displ(self_pos, target_pos)) < 0,
{
    let d = target_pos.sub(self_pos);
    let dp: i128 = target_vel.dot(d);
    if dp < 0 {
        Engagement::ClosingThreat
    } else {
        Engagement::Pursuit
    }
}

/// The aim point of one tick: the predicted bullet-intercept point, or
/// the target's present position when the prediction degenerates.
pub open spec fn spec_aim_point(last: Option<Vec2Fp>, s: Sensed) -> Vec2Fp {
    match spec_intercept_point(
        last,
        s.position,
        s.target_position,
        s.target_velocity,
        BULLET_SPEED_FP as int,
    ) {
        Some(p) => p,
        None => s.target_position,
    }
}

/// Hold position and suppress: cancel the craft's own velocity, steer
/// the nose at the aim bearing plus the lead compensation, fire within
/// tolerance, and leave the boost ability untouched.
pub open spec fn spec_closing_command(last: Option<Vec2Fp>, s: Sensed) -> TickCommand {
    let aim = spec_aim_point(last, s);
    let bearing = spec_atan2(spec_displ(s.position, aim));
    (TickCommand {
        accel: Vec2Fp { x: (-s.velocity.x) as i64, y: (-s.velocity.y) as i64 },
        torque: spec_turn(
            s.heading as int,
            bearing + AIM_COMPENSATION_FP,
            s.angular_velocity as int,
            s.limits.max_angular as int,
        ) as i64,
        boost: BoostCommand::Keep,
        fire: abs_i(spec_angle_diff(s.heading as int, bearing)) < FIRE_ACCURACY_FP,
        aim: aim,
    })
}

/// The travel goal of the pursuit: the ship-speed intercept point, or
/// the target's present position when that prediction degenerates.
pub open spec fn spec_travel_point(last: Option<Vec2Fp>, s: Sensed) -> Vec2Fp {
    match spec_intercept_point(
        last,
        s.position,
        s.target_position,
        s.target_velocity,
        CRUISE_SPEED_FP as int,
    ) {
        Some(p) => p,
        None => s.target_position,
    }
}

/// Pursue and fire: travel toward the ship-intercept point with the
/// nose on the bullet-intercept point, fire within tolerance. When the
/// travel goal coincides with the craft's own position the linear
/// controller has nothing to do: no acceleration, boost off.
pub open spec fn spec_pursuit_command(last: Option<Vec2Fp>, s: Sensed) -> TickCommand {
    let aim = spec_aim_point(last, s);
    let travel = spec_travel_point(last, s);
    let bearing = spec_atan2(spec_displ(s.position, aim));
    let fire = abs_i(spec_angle_diff(s.heading as int, bearing)) < FIRE_ACCURACY_FP;
    if travel.x == s.position.x && travel.y == s.position.y {
        (TickCommand {
            accel: Vec2Fp { x: 0, y: 0 },
            torque: spec_turn(
                s.heading as int,
                bearing,
                s.angular_velocity as int,
                s.limits.max_angular as int,
            ) as i64,
            boost: BoostCommand::Deactivate,
            fire: fire,
            aim: aim,
        })
    } else {
        let m = spec_motion(s.position, s.velocity, s.heading as int, travel, Facing::At(aim), s.limits);
        (TickCommand {
            accel: m.accel,
            torque: spec_turn(
                s.heading as int,
                m.heading_target as int,
                s.angular_velocity as int,
                s.limits.max_angular as int,
            ) as i64,
            boost: if m.boost {
                BoostCommand::Activate
            } else {
                BoostCommand::Deactivate
            },
            fire: fire,
            aim: aim,
        })
    }
}

/// The whole decision of one tick as a pure function of the snapshot and
/// the stored velocity sample.
pub open spec fn spec_tick_command(last: Option<Vec2Fp>, s: Sensed) -> TickCommand {
    if spec_classify(s.position, s.target_position, s.target_velocity) is ClosingThreat {
        spec_closing_command(last, s)
    } else {
        spec_pursuit_command(last, s)
    }
}

/// The agent: its only state is the previous tick's target velocity.
pub struct Ship {
    pub memory: AgentMemory,
}

impl Ship {
    /// A fresh agent with no velocity sample yet.
    pub fn new() -> (r: Ship)
        ensures
            r.memory.last_target_velocity is None,
            mem_wf(r.memory),
    {
        Ship { memory: AgentMemory { last_target_velocity: None } }
    }

    /// One tick: classify the target's motion, predict, steer and decide
    /// fire and boost. The stored velocity sample is replaced by the
    /// fresh one, the single mutation of the agent's memory.
    pub fn tick(&mut self, s: &Sensed) -> (r: TickCommand)
        requires
            sensed_wf(*s),
            mem_wf(old(self).memory),
        ensures
            mem_wf(final(self).memory),
            final(self).memory.last_target_velocity == Some(s.target_velocity),
            r == spec_tick_command(old(self).memory.last_target_velocity, *s),
    {
        let last: Option<Vec2Fp> = self.memory.last_target_velocity;
        let cls = classify(s.position, s.target_position, s.target_velocity);
        let aim: Vec2Fp = match intercept_point(
            &mut self.memory,
            s.position,
            s.target_position,
            s.target_velocity,
            BULLET_SPEED_FP,
        ) {
            Some(p) => p,
            None => s.target_position,
        };
        proof {
            assert(aim == spec_aim_point(last, *s));
            assert(in_point(aim));
        }
        let bearing: i64 = atan2_fp(aim.sub(s.position));
        let align: i64 = angle_diff(s.heading, bearing);
        let a_abs: i64 = if align >= 0 {
            align
        } else {
            -align
        };
        let fire: bool = a_abs < FIRE_ACCURACY_FP;
        match cls {
            Engagement::ClosingThreat => {
                let torque: i64 = turn_torque(
                    s.heading,
                    bearing + AIM_COMPENSATION_FP,
                    s.angular_velocity,
                    s.limits.max_angular,
                );
                TickCommand {
                    accel: s.velocity.neg(),
                    torque,
                    boost: BoostCommand::Keep,
                    fire,
                    aim,
                }
            },
            Engagement::Pursuit => {
                let acc: Vec2Fp = match last {
                    Some(p) => s.target_velocity.sub(p),
                    None => Vec2Fp::zero(),
                };
                proof {
                    assert(acc == spec_accel_est(last, s.target_velocity));
                }
                let d = s.target_position.sub(s.position);
                let travel: Vec2Fp = match intercept_time(d, s.target_velocity, CRUISE_SPEED_FP) {
                    Some(t) => match predict_point(s.target_position, s.target_velocity, acc, t) {
                        Some(p) => p,
                        None => s.target_position,
                    },
                    None => s.target_position,
                };
                proof {
                    assert(travel == spec_travel_point(last, *s));
                    assert(in_point(travel));
                }
                if travel.x == s.position.x && travel.y == s.position.y {
                    let torque: i64 = turn_torque(
                        s.heading,
                        bearing,
                        s.angular_velocity,
                        s.limits.max_angular,
                    );
                    TickCommand {
                        accel: Vec2Fp::zero(),
                        torque,
                        boost: BoostCommand::Deactivate,
                        fire,
                        aim,
                    }
                } else {
                    let m = plan_motion(
                        s.position,
                        s.velocity,
                        s.heading,
                        travel,
                        Facing::At(aim),
                        s.limits,
                    );
                    let torque: i64 = turn_torque(
                        s.heading,
                        m.heading_target,
                        s.angular_velocity,
                        s.limits.max_angular,
                    );
                    TickCommand {
                        accel: m.accel,
                        torque,
                        boost: if m.boost {
                            BoostCommand::Activate
                        } else {
                            BoostCommand::Deactivate
                        },
                        fire,
                        aim,
                    }
                }
            },
        }
    }
}

} // verus!
