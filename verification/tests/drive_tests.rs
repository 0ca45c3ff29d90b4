use ev3nav::drive::{
    first_rotation, joy_mark, joy_report, joy_start, joystick_step, route_steps, DriveStep,
    JoyAction, JoyDrive,
};
use ev3nav::graph::{LineRide, MoveAction};
use ev3nav::joystick::{find_led_entry, has_led_prefix, GamePadLeds, GamePadState, LedChannel};
use ev3nav::line_testing::{
    go_on_degrees_continues, line_ride_speed, mirrored_steering_command, mirrored_sync_error,
    mirrored_wheel_command, pid_steering_no_reset_message,
};
use ev3nav::line::{sync_receive, sync_start, WheelCommand};

#[test]
fn route_steps_center_before_turns() {
    let path = vec![
        MoveAction::LineRide(LineRide::CrossStop),
        MoveAction::Rotate(2),
        MoveAction::Rotate(-1),
        MoveAction::LineRide(LineRide::LeftStop),
    ];
    assert_eq!(
        route_steps(&path),
        vec![
            DriveStep::Ride(LineRide::CrossStop),
            DriveStep::Center,
            DriveStep::Halt,
            DriveStep::Pause,
            DriveStep::Turn(2),
            DriveStep::Halt,
            DriveStep::Pause,
            DriveStep::Turn(-1),
            DriveStep::Ride(LineRide::LeftStop),
            DriveStep::Center,
            DriveStep::Halt,
        ]
    );
    assert_eq!(route_steps(&vec![]), vec![DriveStep::Halt]);
    assert_eq!(
        route_steps(&vec![MoveAction::Rotate(3)]),
        vec![DriveStep::Halt, DriveStep::Pause, DriveStep::Turn(3), DriveStep::Halt]
    );
}

#[test]
fn first_rotation_only_for_a_leading_turn() {
    assert_eq!(first_rotation(&vec![]), None);
    assert_eq!(first_rotation(&vec![MoveAction::Rotate(-1), MoveAction::Rotate(2)]), Some(MoveAction::Rotate(-1)));
    assert_eq!(first_rotation(&vec![MoveAction::LineRide(LineRide::RightStop), MoveAction::Rotate(2)]), None);
}

fn pad() -> GamePadState {
    GamePadState::new()
}

#[test]
fn game_pad_at_rest() {
    let p = GamePadState::new();
    assert_eq!(p, GamePadState::default());
    assert_eq!((p.lx, p.ly, p.rx, p.ry, p.rt, p.lt), (0, 0, 0, 0, 0, 0));
    assert!(!p.cross && !p.share && !p.rt_b && !p.lt_b);
}

#[test]
fn driving_by_hand() {
    let s = joy_start(10, 20);
    assert_eq!(s, JoyDrive { mode: 0, motion: 0, steering: 0, lc: 10, rc: 20 });
    let mut p = pad();
    p.cross = true;
    p.lx = -64;
    let (s, a) = joystick_step(s, &p, 30);
    assert_eq!((s.steering, a), (-50, JoyAction::Idle));
    let mut p = pad();
    p.rt_b = true;
    let (s, a) = joystick_step(s, &p, 30);
    assert_eq!((s.motion, a), (1, JoyAction::Drive(-50, 30)));
    let (s, a) = joystick_step(s, &p, 30);
    assert_eq!((s.motion, a), (1, JoyAction::Idle));
    let mut q = pad();
    q.lt_b = true;
    let (s, a) = joystick_step(s, &q, 30);
    assert_eq!((s.motion, a), (-1, JoyAction::Drive(-50, -30)));
    let mut sq = pad();
    sq.square = true;
    assert_eq!(joystick_step(s, &sq, 30).1, JoyAction::Skip);
    let mut sh = pad();
    sh.share = true;
    assert_eq!(joystick_step(s, &sh, 30).1, JoyAction::Idle);
    let (s, a) = joystick_step(s, &pad(), 30);
    assert_eq!((s.motion, a), (0, JoyAction::Halt));
    assert_eq!(joystick_step(s, &sq, 30).1, JoyAction::Report);
    assert_eq!(joystick_step(s, &sh, 30).1, JoyAction::Finish);
    let mut c = pad();
    c.circle = true;
    assert_eq!(joystick_step(s, &c, 30).1, JoyAction::Mark);
    let s = joy_mark(s, 100, 200);
    assert_eq!(joy_report(&s, 130, 150), (-30, -50, -50));
    let mut t = pad();
    t.triangle = true;
    let (locked, a) = joystick_step(s, &t, 30);
    assert_eq!((locked.mode, a), (1, JoyAction::SwitchMode));
    assert_eq!(joystick_step(locked, &p, 30), (locked, JoyAction::Idle));
    let waiting = JoyDrive { mode: 2, ..locked };
    assert_eq!(joystick_step(waiting, &t, 30).0.mode, 0);
    let mut tc = t;
    tc.cross = true;
    assert_eq!(joystick_step(waiting, &tc, 30), (waiting, JoyAction::Idle));
}

#[test]
fn led_directories() {
    assert!(has_led_prefix("0003:054C:09CC.0008:red"));
    assert!(!has_led_prefix("0003:054C:09CC"));
    assert!(!has_led_prefix("input3::capslock"));
    let names = vec!["input3::capslock".to_string(), "0003:054C:09CC.0008:blue".to_string(), "0003:054C:09CC.0008:red".to_string()];
    assert_eq!(find_led_entry(&names), Some(1));
    assert_eq!(find_led_entry(&vec!["mmc0::".to_string()]), None);
    let leds = GamePadLeds::from_led_path("/sys/class/leds/0003:054C:09CC.0008:blue");
    assert_eq!(leds.channel_path(LedChannel::Red), "/sys/class/leds/0003:054C:09CC.0008:red/brightness");
    assert_eq!(leds.channel_path(LedChannel::Green), "/sys/class/leds/0003:054C:09CC.0008:green/brightness");
    assert_eq!(leds.channel_path(LedChannel::Blue), "/sys/class/leds/0003:054C:09CC.0008:blue/brightness");
}

#[test]
fn bench_program_decisions() {
    assert_eq!(
        mirrored_wheel_command(50, -120),
        WheelCommand { left_speed: -750, right_speed: -1500, left_runs: true, right_runs: true }
    );
    assert_eq!(
        mirrored_steering_command(50, 40),
        WheelCommand { left_speed: -600, right_speed: 0, left_runs: true, right_runs: false }
    );
    assert_eq!(pid_steering_no_reset_message(0, 20), (20, 20, true, false));
    assert!(go_on_degrees_continues(0, 0, 100, 10, 50));
    assert!(!go_on_degrees_continues(0, 0, 100, -60, 50));
    let s = sync_receive(sync_start(), (30, 20, true, true), (100, 200));
    assert_eq!(mirrored_sync_error(&s, 110, 180), 10 * 20 - 20 * 30);
    assert_eq!(line_ride_speed(30, 0), 30);
    assert_eq!(line_ride_speed(30, 5), 30 - 25 * 24 / 100 / 30);
    assert_eq!(line_ride_speed(30, 50), 30 - 100 * 24 / 100 / 30);
}
