//! Decisions of the bench program for medium motors: the wheels are mounted
//! mirrored, so the left motor turns the other way and speeds scale by 15.
use vstd::prelude::*;
use crate::line::{
    clamp100, fits_i32, limit, split_defined, split_speeds, steering_split, tdiv, SyncState,
    WheelCommand,
};

verus! {

/// The command for mirrored wheels: each speed held within `-100..=100` and
/// scaled by 15, the left one negated; a wheel whose held speed is 0 holds.
pub open spec fn mirrored_command(lm: int, rm: int) -> WheelCommand {
    WheelCommand {
        left_speed: (-(clamp100(lm) * 15)) as i32,
        right_speed: (clamp100(rm) * 15) as i32,
        left_runs: clamp100(lm) != 0,
        right_runs: clamp100(rm) != 0,
    }
}

/// The wheel command for speeds `lm` and `rm` in percent on mirrored wheels.
pub fn mirrored_wheel_command(lm: i32, rm: i32) -> (c: WheelCommand)
    ensures
        c == mirrored_command(lm as int, rm as int),
{
    let lm = limit(lm);
    let rm = limit(rm);
    WheelCommand { left_speed: -(lm * 15), right_speed: rm * 15, left_runs: lm != 0, right_runs: rm != 0 }
}

/// The mirrored wheel command for driving with a steering and a speed.
pub fn mirrored_steering_command(steering: i32, speed: i32) -> (c: WheelCommand)
    requires
        split_defined(steering as int, speed as int),
    ensures
        c == mirrored_command(split_speeds(steering as int, speed as int).0, split_speeds(steering as int, speed as int).1),
{
    let (lmot, rmot) = steering_split(steering, speed);
    mirrored_wheel_command(lmot, rmot)
}

/// The message that changes the wheel speeds and keeps them in step without
/// restarting the distances.
pub fn pid_steering_no_reset_message(steering: i32, speed: i32) -> (m: (i32, i32, bool, bool))
    requires
        split_defined(steering as int, speed as int),
    ensures
        (m.0 as int, m.1 as int) == split_speeds(steering as int, speed as int),
        m.2,
        !m.3,
{
    let (lmot, rmot) = steering_split(steering, speed);
    (lmot, rmot, true, false)
}

/// `go_on_degrees` of the bench program keeps driving while either wheel is
/// less than `degrees` away from where it started.
pub fn go_on_degrees_continues(cl: i32, cr: i32, lpos: i32, rpos: i32, degrees: i32) -> (b: bool)
    requires
        crate::line::travel_defined(cl as int, cr as int, lpos as int, rpos as int),
    ensures
        b == (crate::line::abs_int(lpos - cl) < degrees || crate::line::abs_int(rpos - cr) < degrees),
{
    let l_diff = lpos - cl;
    let r_diff = rpos - cr;
    crate::line::iabs(l_diff) < degrees || crate::line::iabs(r_diff) < degrees
}

/// The out-of-step error on mirrored wheels, where the left distance counts
/// forward: `lc * rs - rc * ls` with `lc = lpos - cls`, `rc = crs - rpos`.
pub open spec fn mirrored_step_error(s: SyncState, lpos: int, rpos: int) -> int {
    (lpos - s.cls) * s.rs - (s.crs - rpos) * s.ls
}

/// The mirrored out-of-step error can be computed within `i32`.
pub open spec fn mirrored_error_defined(s: SyncState, lpos: int, rpos: int) -> bool {
    &&& fits_i32(s.cls - lpos)
    &&& s.cls - lpos != i32::MIN
    &&& fits_i32(s.crs - rpos)
    &&& fits_i32((lpos - s.cls) * s.rs)
    &&& fits_i32((s.crs - rpos) * s.ls)
    &&& fits_i32(mirrored_step_error(s, lpos, rpos))
}

/// The out-of-step error on mirrored wheels at the positions `lpos`, `rpos`.
pub fn mirrored_sync_error(s: &SyncState, lpos: i32, rpos: i32) -> (e: i32)
    requires
        mirrored_error_defined(*s, lpos as int, rpos as int),
    ensures
        e == mirrored_step_error(*s, lpos as int, rpos as int),
{
    let lc = -(s.cls - lpos);
    let rc = s.crs - rpos;
    lc * s.rs - rc * s.ls
}

/// The wheel command on mirrored wheels that applies the correction `diff`.
pub fn mirrored_sync_wheels(s: &SyncState, diff: i32) -> (c: WheelCommand)
    requires
        crate::line::correction_defined(*s, diff as int),
    ensures
        c == mirrored_command(crate::line::corrected_speeds(*s, diff as int).0, crate::line::corrected_speeds(*s, diff as int).1),
{
    let lse = s.ls + crate::line::sign_of(s.rs) * diff;
    let rse = s.rs - crate::line::sign_of(s.ls) * diff;
    mirrored_wheel_command(lse, rse)
}

/// `a` held within `0..=100`.
pub open spec fn clamp_percent(a: int) -> int {
    if a > 100 {
        100
    } else if a < 0 {
        0
    } else {
        a
    }
}

/// The speed of the bench line ride for a steering error: the speed lowered
/// as the squared error grows, by at most 80 percent over 30.
pub open spec fn ride_speed(speed: int, error: int) -> int {
    speed - tdiv(tdiv(clamp_percent(error * error) * tdiv(speed * 80, 100), 100), 30)
}

/// The speed can be computed within `i32`.
pub open spec fn ride_speed_defined(speed: int, error: int) -> bool {
    &&& fits_i32(error * error)
    &&& fits_i32(speed * 80)
    &&& fits_i32(clamp_percent(error * error) * tdiv(speed * 80, 100))
}

/// The speed of the bench line ride for the steering error `error`.
pub fn line_ride_speed(speed: i32, error: i32) -> (s: i32)
    requires
        ride_speed_defined(speed as int, error as int),
    ensures
        s == ride_speed(speed as int, error as int),
{
    let sq: i32 = error * error;
    let held: i32 = if sq > 100 { 100 } else if sq < 0 { 0 } else { sq };
    let mycof: i32 = 30;
    speed - held * (speed * 80 / 100) / 100 / mycof
}

} // verus!
