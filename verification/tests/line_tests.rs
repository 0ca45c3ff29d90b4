use ev3nav::graph::LineRide;
use ev3nav::line::{
    black, cross_error, go_on_degrees_continues, go_on_stop_start_speed, go_on_stop_step,
    line_degrees_error, line_error, line_rule, middle_grey, outer_line_degrees_error, outer_line_left_stop_rule, pid_steering_message,
    pid_steering_no_reset_message, ride_phase_after, set_black, set_middle_grey, set_white,
    steering_command, steering_split, sync_error, sync_receive, sync_start, sync_waits,
    sync_wheels, travel_exceeds, turn_count_begin, turn_count_step, turn_finished,
    turn_steering, wheel_command, white, Calibration, LineError, RidePhase, StopSensor,
    TurnProgress, TurnStage, WheelCommand,
};

fn cal() -> Calibration {
    let mut c = Calibration::new();
    set_white(&mut c, 60);
    set_middle_grey(&mut c, 35);
    set_black(&mut c, 10);
    c
}

#[test]
fn calibration_reads_back_what_was_set() {
    let mut c = Calibration::new();
    assert_eq!((white(&c), middle_grey(&c), black(&c)), (0, 0, 0));
    set_white(&mut c, 70);
    assert_eq!((white(&c), middle_grey(&c), black(&c)), (70, 0, 0));
    set_middle_grey(&mut c, 40);
    set_black(&mut c, 8);
    assert_eq!((white(&c), middle_grey(&c), black(&c)), (70, 40, 8));
    set_white(&mut c, 65);
    assert_eq!((white(&c), middle_grey(&c), black(&c)), (65, 40, 8));
}

#[test]
fn steering_splits_into_wheel_speeds() {
    assert_eq!(steering_split(0, 40), (40, 40));
    assert_eq!(steering_split(50, 40), (40, 0));
    assert_eq!(steering_split(100, 40), (40, -40));
    assert_eq!(steering_split(-25, 40), (20, 40));
    assert_eq!(steering_split(10, -33), (-33, -27));
    assert_eq!(steering_split(-7, 30), (26, 30));
}

#[test]
fn wheel_commands_hold_and_scale() {
    assert_eq!(
        wheel_command(150, -5),
        WheelCommand { left_speed: 1000, right_speed: -50, left_runs: true, right_runs: true }
    );
    assert_eq!(
        wheel_command(0, -300),
        WheelCommand { left_speed: 0, right_speed: -1000, left_runs: false, right_runs: true }
    );
    assert_eq!(
        steering_command(100, 30),
        WheelCommand { left_speed: 300, right_speed: -300, left_runs: true, right_runs: true }
    );
}

#[test]
fn synchroniser_messages() {
    assert_eq!(pid_steering_message(0, 30), (30, 30, true, true));
    assert_eq!(pid_steering_message(20, 0), (0, 0, false, true));
    assert_eq!(pid_steering_no_reset_message(50, 30), (30, 0, false, false));
}

#[test]
fn distances_travelled() {
    assert!(go_on_degrees_continues(100, -100, 150, -140, 60));
    assert!(!go_on_degrees_continues(100, -100, 160, -140, 60));
    assert!(travel_exceeds(0, 0, 70, -60, 64));
    assert!(!travel_exceeds(0, 0, 70, -59, 64));
}

#[test]
fn braking_to_a_stop() {
    assert_eq!(go_on_stop_start_speed(-300, 300), 300);
    assert_eq!(go_on_stop_step(0, 0, 50, 30, 300, 200), Some(24));
    assert_eq!(go_on_stop_step(0, 0, 190, 190, 300, 200), Some(20));
    assert_eq!(go_on_stop_step(0, 0, 201, 0, 300, 200), None);
    assert_eq!(go_on_stop_step(0, 0, 0, -201, 300, 200), None);
    assert_eq!(go_on_stop_step(0, 0, 0, 0, 3000, 200), Some(300));
}

#[test]
fn keeping_the_wheels_in_step() {
    let s = sync_start();
    assert!(sync_waits(&s));
    let s = sync_receive(s, (30, 20, true, true), (100, 200));
    assert!(!sync_waits(&s));
    assert_eq!((s.ls, s.rs, s.cls, s.crs), (30, 20, 100, 200));
    // left wheel went 10, right 20 (positions count backward from the marks)
    assert_eq!(sync_error(&s, 90, 180), 10 * 20 - 20 * 30);
    let c = sync_wheels(&s, -5);
    assert_eq!(c, WheelCommand { left_speed: 250, right_speed: 250, left_runs: true, right_runs: true });
    let s0 = sync_receive(s, (0, 0, true, false), (7, 7));
    assert_eq!(sync_wheels(&s0, 37), WheelCommand { left_speed: 0, right_speed: 0, left_runs: false, right_runs: false });
    let s2 = sync_receive(s, (0, 0, false, false), (7, 7));
    assert_eq!((s2.cls, s2.crs, s2.adjusting), (100, 200, false));
    assert_eq!(sync_wheels(&s2, 9), WheelCommand { left_speed: 0, right_speed: 0, left_runs: false, right_runs: false });
}

#[test]
fn cross_error_matches_f32() {
    let cases: [(i32, i32); 8] = [
        (5, 3),
        (16777217, 0),
        (16777219, 0),
        (0, 16777219),
        (i32::MAX, 0),
        (i32::MIN, 0),
        (-1073741825, 1073741823),
        (123456789, -987654),
    ];
    for &(l, r) in cases.iter() {
        assert_eq!(cross_error(l, r), ((l - r) as f32) as i32, "l={} r={}", l, r);
    }
    assert_eq!(cross_error(16777217, 0), 16777216);
}

#[test]
fn line_errors() {
    let c = cal();
    assert_eq!(line_error(LineError::Difference, &c, 50, 20), 30);
    assert_eq!(line_error(LineError::RoundedDifference, &c, 20, 50), -30);
    assert_eq!(line_error(LineError::OuterRight, &c, 0, 50), 15);
    assert_eq!(line_error(LineError::InnerRight, &c, 0, 50), -15);
    assert_eq!(line_error(LineError::InnerLeft, &c, 30, 0), -5);
}

#[test]
fn riding_to_a_stop_goes_white_then_black() {
    let c = cal();
    let rule = line_rule(LineRide::CrossStop);
    assert_eq!(rule.error, LineError::RoundedDifference);
    assert_eq!(rule.stop, StopSensor::Both);
    let mut p = RidePhase::UntilWhite;
    p = ride_phase_after(rule.stop, p, &c, 10, 100);
    assert_eq!(p, RidePhase::UntilWhite); // mean 55
    p = ride_phase_after(rule.stop, p, &c, 61, 62);
    assert_eq!(p, RidePhase::UntilBlack);
    p = ride_phase_after(rule.stop, p, &c, 9, 12);
    assert_eq!(p, RidePhase::UntilBlack); // mean 10 is not below 10
    p = ride_phase_after(rule.stop, p, &c, 9, 10);
    assert_eq!(p, RidePhase::Done);
    assert_eq!(ride_phase_after(rule.stop, p, &c, 100, 100), RidePhase::Done);
    let left = line_rule(LineRide::LeftStop);
    assert_eq!((left.error, left.stop), (LineError::InnerRight, StopSensor::Left));
    assert_eq!(ride_phase_after(left.stop, RidePhase::UntilWhite, &c, 61, 0), RidePhase::UntilBlack);
    let right = line_rule(LineRide::RightStop);
    assert_eq!((right.error, right.stop), (LineError::InnerLeft, StopSensor::Right));
    assert_eq!(ride_phase_after(right.stop, RidePhase::UntilWhite, &c, 61, 0), RidePhase::UntilWhite);
    assert_eq!(line_degrees_error(), LineError::Difference);
    assert_eq!(outer_line_degrees_error(), LineError::OuterRight);
    let o = outer_line_degrees_error();
    assert_eq!(line_error(o, &c, 0, 40), line_error(o, &c, 99, 40));
    let outer = outer_line_left_stop_rule();
    assert_eq!((outer.error, outer.stop), (LineError::OuterRight, StopSensor::Left));
}

#[test]
fn turning_across_lines() {
    let c = cal();
    assert_eq!(turn_count_begin(0), None);
    let t = turn_count_begin(-2).unwrap();
    assert_eq!(t, TurnProgress { right: false, remaining: 2, stage: TurnStage::FirstWhite });
    assert_eq!(turn_steering(&t), -100);
    // readings (l, r): only the left sensor counts when turning left
    let readings = [(70, 0), (5, 99), (5, 0), (61, 0), (61, 0), (3, 0), (65, 0)];
    let mut t = t;
    let mut used = 0;
    for &(l, r) in readings.iter() {
        if turn_finished(&t) {
            break;
        }
        t = turn_count_step(t, &c, l, r);
        used += 1;
    }
    assert!(turn_finished(&t));
    assert_eq!(used, 7);
    let r = turn_count_begin(1).unwrap();
    assert_eq!(turn_steering(&r), 100);
    let r = turn_count_step(r, &c, 0, 70);
    assert_eq!(r.stage, TurnStage::Black);
}
