use ship_control::angles::{angle_diff, atan2_fp, norm_angle, HALF_PI_FP, PI_FP, QUARTER_PI_FP};
use ship_control::intercept::{intercept_point, intercept_time, predict_point, AgentMemory};
use ship_control::motion::{dash_through, plan_motion, Facing, Limits};
use ship_control::policy::{classify, Sensed};
use ship_control::turning::torque_for_error;
use ship_control::vec2::Vec2Fp;
use ship_control::{BoostCommand, Engagement, Ship};

fn v(x: i64, y: i64) -> Vec2Fp {
    Vec2Fp { x, y }
}

fn limits() -> Limits {
    Limits {
        max_forward: 10_000_000,
        max_backward: 10_000_000,
        max_lateral: 10_000_000,
        max_angular: 1_000_000,
    }
}

fn sensed(pos: Vec2Fp, vel: Vec2Fp, tpos: Vec2Fp, tvel: Vec2Fp) -> Sensed {
    Sensed {
        position: pos,
        velocity: vel,
        heading: 0,
        angular_velocity: 0,
        target_position: tpos,
        target_velocity: tvel,
        limits: limits(),
    }
}

#[test]
fn stationary_target_time_of_flight() {
    // 1000 m dead ahead at 1000 m/s: exactly one second.
    let t = intercept_time(v(1_000_000_000, 0), v(0, 0), 1_000_000_000);
    assert_eq!(t, Some(1_000_000));
    // 500 m at 100 m/s: five seconds.
    let t = intercept_time(v(500_000_000, 0), v(0, 0), 100_000_000);
    assert_eq!(t, Some(5_000_000));
}

#[test]
fn constant_velocity_prediction_has_no_correction() {
    // Same target velocity on two consecutive ticks: the prediction is
    // the target position advanced by t times its velocity, exactly.
    let mut mem = AgentMemory { last_target_velocity: Some(v(100_000_000, 0)) };
    let p = intercept_point(
        &mut mem,
        v(0, 0),
        v(1_000_000_000, 0),
        v(100_000_000, 0),
        1_000_000_000,
    );
    // t = 1.111111 s, point = 1000 m + t * 100 m/s.
    assert_eq!(p, Some(v(1_111_111_100, 0)));
    assert_eq!(mem.last_target_velocity, Some(v(100_000_000, 0)));
}

#[test]
fn acceleration_estimate_bends_the_prediction() {
    // A stored sample differing from the fresh velocity must change the
    // predicted point: the correction terms are live.
    let mut mem_same = AgentMemory { last_target_velocity: Some(v(100_000_000, 0)) };
    let mut mem_accel = AgentMemory { last_target_velocity: Some(v(90_000_000, 0)) };
    let straight = intercept_point(
        &mut mem_same,
        v(0, 0),
        v(1_000_000_000, 0),
        v(100_000_000, 0),
        1_000_000_000,
    )
    .unwrap();
    let bent = intercept_point(
        &mut mem_accel,
        v(0, 0),
        v(1_000_000_000, 0),
        v(100_000_000, 0),
        1_000_000_000,
    )
    .unwrap();
    assert!(bent.x > straight.x);
}

#[test]
fn equal_speeds_give_no_intercept() {
    // Target speed equal to the closing speed: the quadratic degenerates.
    let t = intercept_time(v(1_000_000_000, 0), v(100_000_000, 0), 100_000_000);
    assert_eq!(t, None);
}

#[test]
fn receding_faster_than_pursuer_gives_no_intercept() {
    let t = intercept_time(v(1_000_000_000, 0), v(200_000_000, 0), 100_000_000);
    assert_eq!(t, None);
}

#[test]
fn predict_point_rejects_far_points() {
    // A point beyond the world box is reported as degenerate.
    let p = predict_point(
        v(99_000_000_000, 0),
        v(100_000_000_000, 0),
        v(0, 0),
        3_600_000_000,
    );
    assert_eq!(p, None);
}

#[test]
fn classification_follows_the_dot_product() {
    let me = v(0, 0);
    let tp = v(1_000_000_000, 0);
    assert_eq!(classify(me, tp, v(-100_000_000, 0)), Engagement::ClosingThreat);
    assert_eq!(classify(me, tp, v(100_000_000, 0)), Engagement::Pursuit);
    // The boundary case (no radial motion) counts as pursuit.
    assert_eq!(classify(me, tp, v(0, 100_000_000)), Engagement::Pursuit);
    assert_eq!(classify(me, tp, v(0, 0)), Engagement::Pursuit);
}

#[test]
fn closing_target_is_held_and_suppressed() {
    // Self at the origin, stationary; target 1000 m ahead closing at
    // 100 m/s; heading already on target.
    let mut ship = Ship::new();
    let s = sensed(v(0, 0), v(0, 0), v(1_000_000_000, 0), v(-100_000_000, 0));
    let cmd = ship.tick(&s);
    // The hold command cancels the (zero) velocity.
    assert_eq!(cmd.accel, v(0, 0));
    // The aim point lies short of the target, on its approach side.
    assert!(cmd.aim.y == 0);
    assert!(cmd.aim.x > 0);
    assert!(cmd.aim.x < 1_000_000_000);
    // Aligned within 0.05 rad: fire.
    assert!(cmd.fire);
    // The boost ability is left alone while holding.
    assert_eq!(cmd.boost, BoostCommand::Keep);
    // The memory now holds the fresh velocity sample.
    assert_eq!(ship.memory.last_target_velocity, Some(v(-100_000_000, 0)));
}

#[test]
fn closing_command_cancels_own_velocity() {
    let mut ship = Ship::new();
    let s = sensed(
        v(0, 0),
        v(30_000_000, -20_000_000),
        v(1_000_000_000, 0),
        v(-100_000_000, 0),
    );
    let cmd = ship.tick(&s);
    assert_eq!(cmd.accel, v(-30_000_000, 20_000_000));
}

#[test]
fn retreating_target_is_pursued() {
    // Self at the origin, stationary; target 1000 m ahead retreating at
    // 100 m/s.
    let mut ship = Ship::new();
    let s = sensed(v(0, 0), v(0, 0), v(1_000_000_000, 0), v(100_000_000, 0));
    let cmd = ship.tick(&s);
    // The nose goes on the bullet-intercept point, which lies beyond the
    // target's present position but well short of the ship-intercept
    // point.
    assert_eq!(cmd.aim, v(1_111_111_100, 0));
    // The ship-intercept point at 150 m/s cruise lies farther out.
    let t_ship = intercept_time(v(1_000_000_000, 0), v(100_000_000, 0), 150_000_000).unwrap();
    assert_eq!(t_ship, 20_000_000);
    let travel = predict_point(v(1_000_000_000, 0), v(100_000_000, 0), v(0, 0), t_ship).unwrap();
    assert_eq!(travel, v(3_000_000_000, 0));
    assert!(travel.x > s.target_position.x);
    assert!(cmd.aim.x < travel.x);
    // Pursuit always issues a boost command, never leaves it untouched.
    assert_ne!(cmd.boost, BoostCommand::Keep);
    // Far away and aligned: full forward burn along the displacement.
    assert!(cmd.accel.x > 0);
    assert_eq!(cmd.accel.y, 0);
    assert!(cmd.fire);
}

#[test]
fn ticks_are_deterministic() {
    let s = sensed(v(0, 0), v(0, 0), v(1_000_000_000, 0), v(-100_000_000, 0));
    let mut a = Ship::new();
    let mut b = Ship::new();
    assert_eq!(a.tick(&s), b.tick(&s));
    assert_eq!(a.tick(&s), b.tick(&s));
}

#[test]
fn degenerate_prediction_falls_back_to_the_target() {
    // Target retreating exactly at bullet speed: no bullet intercept
    // exists, the craft aims at the target's present position.
    let mut ship = Ship::new();
    let s = sensed(v(0, 0), v(0, 0), v(1_000_000_000, 0), v(1_000_000_000, 0));
    let cmd = ship.tick(&s);
    assert_eq!(cmd.aim, v(1_000_000_000, 0));
}

#[test]
fn closing_regime_burns_forward() {
    let m = plan_motion(
        v(0, 0),
        v(0, 0),
        0,
        v(1_000_000_000, 0),
        Facing::Travel,
        limits(),
    );
    assert!(!m.braking);
    assert_eq!(m.radial_scalar, 10_000_000);
    assert_eq!(m.lateral_scalar, 0);
    assert_eq!(m.accel, v(10_000_000, 0));
    assert_eq!(m.heading_target, 0);
    // Aligned with the travel direction: boost.
    assert!(m.boost);
}

#[test]
fn misaligned_craft_does_not_boost() {
    let m = plan_motion(
        v(0, 0),
        v(0, 0),
        500_000,
        v(1_000_000_000, 0),
        Facing::Travel,
        limits(),
    );
    assert!(!m.boost);
    assert_eq!(m.radial_scalar, 10_000_000);
}

#[test]
fn braking_regime_clamps_to_the_backward_limit() {
    // 100 m/s toward a target one meter away: far inside the stopping
    // distance, decelerate at the full backward limit, boost off.
    let m = plan_motion(
        v(0, 0),
        v(100_000_000, 0),
        0,
        v(1_000_000, 0),
        Facing::Travel,
        limits(),
    );
    assert!(m.braking);
    assert!(!m.boost);
    assert_eq!(m.radial_scalar, -10_000_000);
    assert_eq!(m.accel.x, -10_000_000);
}

#[test]
fn gentle_braking_uses_the_exact_deceleration() {
    // Creeping at 1 m/s with the stop point 1.5 cm ahead: the needed
    // deceleration is below the limit and is commanded exactly.
    let m = plan_motion(v(0, 0), v(1_000_000, 0), 0, v(15_000, 0), Facing::Travel, limits());
    assert!(m.braking);
    assert_eq!(m.radial_scalar, -5_997_600);
    assert!(m.radial_scalar > -10_000_000);
}

#[test]
fn lateral_command_opposes_drift() {
    // Traveling +x with +y drift: the lateral command is -drift.
    let m = plan_motion(
        v(0, 0),
        v(0, 50_000_000),
        0,
        v(1_000_000_000, 0),
        Facing::Travel,
        limits(),
    );
    assert_eq!(m.lateral_scalar, -50_000_000);
    assert_eq!(m.accel.y, -50_000_000);
    // And with -y drift the command flips.
    let m = plan_motion(
        v(0, 0),
        v(0, -50_000_000),
        0,
        v(1_000_000_000, 0),
        Facing::Travel,
        limits(),
    );
    assert_eq!(m.lateral_scalar, 50_000_000);
    assert_eq!(m.accel.y, 50_000_000);
}

#[test]
fn strong_drift_bends_the_travel_heading() {
    // Drift far past ten tick-lengths of lateral authority: the travel
    // heading is biased half a radian against the drift.
    let m = plan_motion(
        v(0, 0),
        v(0, 50_000_000),
        0,
        v(1_000_000_000, 0),
        Facing::Travel,
        limits(),
    );
    assert_eq!(m.heading_target, -500_000);
    // Mild drift leaves the heading on the travel bearing.
    let m = plan_motion(
        v(0, 0),
        v(0, 1_000_000),
        0,
        v(1_000_000_000, 0),
        Facing::Travel,
        limits(),
    );
    assert_eq!(m.heading_target, 0);
}

#[test]
fn facing_a_point_overrides_the_travel_bearing() {
    let m = plan_motion(
        v(0, 0),
        v(0, 0),
        0,
        v(1_000_000_000, 0),
        Facing::At(v(0, 1_000_000_000)),
        limits(),
    );
    assert_eq!(m.heading_target, HALF_PI_FP);
}

#[test]
fn torque_accelerates_toward_a_far_target() {
    // Quarter turn to go, at rest: full torque toward the target.
    let t = torque_for_error(1_570_000, 0, 1_000_000);
    assert_eq!(t, 1_000_000);
    let t = torque_for_error(-1_570_000, 0, 1_000_000);
    assert_eq!(t, -1_000_000);
}

#[test]
fn torque_brakes_before_overshooting() {
    // Spinning fast enough that one more accelerated tick overshoots.
    let t = torque_for_error(100_000, 600_000, 1_000_000);
    assert_eq!(t, -1_000_000);
}

#[test]
fn torque_snaps_onto_a_near_target()
{
    // Nearly aligned and stopping this tick: the snap correction lands
    // on the target with the residual rate cancelled.
    let t = torque_for_error(5_000, 0, 1_000_000);
    assert_eq!(t, 5_000);
    let t = torque_for_error(9_000, -10_000, 1_000_000);
    assert_eq!(t, 19_000);
}

#[test]
fn torque_never_exceeds_the_limit_on_sampled_errors() {
    let alpha: i64 = 1_000_000;
    let mut theta: i64 = -3_141_593;
    while theta <= 3_141_593 {
        let mut omega: i64 = -200_000;
        while omega <= 200_000 {
            let t = torque_for_error(theta, omega, alpha);
            assert!(t.abs() <= alpha, "torque {t} at theta {theta}, omega {omega}");
            omega += 33_333;
        }
        theta += 104_719;
    }
}

#[test]
fn angles_normalize_into_the_signed_half_turn() {
    assert_eq!(norm_angle(0), 0);
    assert_eq!(norm_angle(PI_FP), PI_FP);
    assert_eq!(norm_angle(PI_FP + 1), -PI_FP + 1);
    assert_eq!(norm_angle(7_283_186), 1_000_000);
    assert_eq!(norm_angle(-7_283_186), -1_000_000);
    assert_eq!(norm_angle(-2 * PI_FP), 0);
}

#[test]
fn angle_diff_takes_the_short_way_round() {
    assert_eq!(angle_diff(0, 1_000_000), 1_000_000);
    assert_eq!(angle_diff(1_000_000, 0), -1_000_000);
    // Across the wrap: the short way is counter-clockwise.
    assert_eq!(angle_diff(3_000_000, -3_000_000), 283_186);
}

#[test]
fn bearings_hit_the_axes_and_the_diagonal() {
    assert_eq!(atan2_fp(v(1_000_000, 0)), 0);
    assert_eq!(atan2_fp(v(0, 1_000_000)), HALF_PI_FP);
    assert_eq!(atan2_fp(v(-1_000_000, 0)), PI_FP);
    assert_eq!(atan2_fp(v(0, -1_000_000)), -HALF_PI_FP);
    assert_eq!(atan2_fp(v(7_000_000, 7_000_000)), QUARTER_PI_FP);
    assert_eq!(atan2_fp(v(0, 0)), 0);
}

#[test]
fn vector_length_is_the_floor_root() {
    assert_eq!(v(3_000_000, 4_000_000).length(), 5_000_000);
    assert_eq!(v(0, 0).length(), 0);
    assert_eq!(v(1, 1).length(), 1);
}

#[test]
fn dash_burns_the_raw_displacement() {
    let d = dash_through(v(0, 0), 0, v(2_000_000, 1_000_000));
    assert_eq!(d.accel, v(2_000_000, 1_000_000));
    assert!(!d.boost);
    let d = dash_through(v(0, 0), 0, v(1_000_000_000, 0));
    assert!(d.boost);
    assert_eq!(d.heading_target, 0);
}

#[test]
fn misaligned_craft_holds_fire() {
    // Heading a quarter turn off the aim bearing: outside the 0.05 rad
    // fire tolerance.
    let mut ship = Ship::new();
    let mut s = sensed(v(0, 0), v(0, 0), v(1_000_000_000, 0), v(-100_000_000, 0));
    s.heading = HALF_PI_FP;
    let cmd = ship.tick(&s);
    assert!(!cmd.fire);
}

#[test]
fn snap_correction_can_exceed_a_tiny_torque_limit() {
    // With an angular-acceleration limit below the snap threshold the
    // snap branch commands more torque than the limit itself: the
    // torque-limit law holds only from TORQUE_LIMIT_MIN_ALPHA upward.
    let t = torque_for_error(9_999, 0, 1_000);
    assert_eq!(t, 9_999);
    assert!(t > 1_000);
}
