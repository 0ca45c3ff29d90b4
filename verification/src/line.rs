//! Decisions of the line-following drive: the light calibration, how steering
//! splits into wheel speeds, when a ride along a line or a turn is over.
use vstd::prelude::*;
use crate::graph::LineRide;

verus! {

// ----------------------------------------------------------------------------
// Light calibration.

/// The reflected-light levels the drive compares its sensors against.
#[derive(Debug, Clone, Copy, PartialEq, Eq, Structural)]
pub struct Calibration {
    pub white: i32,
    pub middle_grey: i32,
    pub black: i32,
}

impl Calibration {
    /// A calibration with every level at 0.
    pub fn new() -> (c: Calibration)
        ensures
            c == (Calibration { white: 0, middle_grey: 0, black: 0 }),
    {
        Calibration { white: 0, middle_grey: 0, black: 0 }
    }
}

/// The level halfway between the line and the floor.
pub fn middle_grey(cal: &Calibration) -> (r: i32)
    ensures
        r == cal.middle_grey,
{
    cal.middle_grey
}

/// Sets the level halfway between the line and the floor.
pub fn set_middle_grey(cal: &mut Calibration, val: i32)
    ensures
        *final(cal) == (Calibration { middle_grey: val, ..*old(cal) }),
{
    cal.middle_grey = val;
}

/// The level of the floor.
pub fn white(cal: &Calibration) -> (r: i32)
    ensures
        r == cal.white,
{
    cal.white
}

/// Sets the level of the floor.
pub fn set_white(cal: &mut Calibration, val: i32)
    ensures
        *final(cal) == (Calibration { white: val, ..*old(cal) }),
{
    cal.white = val;
}

/// The level of the line.
pub fn black(cal: &Calibration) -> (r: i32)
    ensures
        r == cal.black,
{
    cal.black
}

/// Sets the level of the line.
pub fn set_black(cal: &mut Calibration, val: i32)
    ensures
        *final(cal) == (Calibration { black: val, ..*old(cal) }),
{
    cal.black = val;
}

// ----------------------------------------------------------------------------
// Steering and wheel speeds.

/// Integer division rounding toward zero, as `/` does on Rust integers.
pub open spec fn tdiv(a: int, b: int) -> int {
    if a >= 0 {
        a / b
    } else {
        -((-a) / b)
    }
}

/// `v` fits in an `i32`.
pub open spec fn fits_i32(v: int) -> bool {
    i32::MIN <= v <= i32::MAX
}

/// How far the steering slows the inner wheel: `steering * speed / 50`.
pub open spec fn steering_cut(steering: int, speed: int) -> int {
    tdiv(steering * speed, 50)
}

/// The wheel speeds for a steering and a speed: the outer wheel keeps the
/// speed, the inner one is slowed by `steering * speed / 50`; positive
/// steering turns right.
pub open spec fn split_speeds(steering: int, speed: int) -> (int, int) {
    if steering > 0 {
        (speed, speed - steering_cut(steering, speed))
    } else {
        (speed + steering_cut(steering, speed), speed)
    }
}

/// The steering can be split without leaving `i32`.
pub open spec fn split_defined(steering: int, speed: int) -> bool {
    &&& fits_i32(steering * speed)
    &&& fits_i32(split_speeds(steering, speed).0)
    &&& fits_i32(split_speeds(steering, speed).1)
}

/// Splits a steering and a speed into left and right wheel speeds.
pub fn steering_split(steering: i32, speed: i32) -> (r: (i32, i32))
    requires
        split_defined(steering as int, speed as int),
    ensures
        (r.0 as int, r.1 as int) == split_speeds(steering as int, speed as int),
{
    let lmot;
    let rmot;
    if steering > 0 {
        lmot = speed;
        rmot = speed - steering * speed / 50;
    } else {
        lmot = speed + steering * speed / 50;
        rmot = speed;
    }
    (lmot, rmot)
}

/// `a` held within `-100..=100`.
pub open spec fn clamp100(a: int) -> int {
    if a > 100 {
        100
    } else if a < -100 {
        -100
    } else {
        a
    }
}

/// Holds a wheel speed within `-100..=100`.
pub fn limit(a: i32) -> (r: i32)
    ensures
        r == clamp100(a as int),
{
    if a > 100 {
        100
    } else if a < -100 {
        -100
    } else {
        a
    }
}

/// What to tell the two wheel motors: their speed setpoints, and whether each
/// runs or holds.
#[derive(Debug, Clone, Copy, PartialEq, Eq, Structural)]
pub struct WheelCommand {
    pub left_speed: i32,
    pub right_speed: i32,
    pub left_runs: bool,
    pub right_runs: bool,
}

/// The command for wheel speeds given in percent with the motor scale
/// `scale`: each speed is held within `-100..=100` and scaled; a wheel whose
/// held speed is 0 holds, the other runs.
pub open spec fn scaled_command(lm: int, rm: int, scale: int) -> WheelCommand {
    WheelCommand {
        left_speed: (clamp100(lm) * scale) as i32,
        right_speed: (clamp100(rm) * scale) as i32,
        left_runs: clamp100(lm) != 0,
        right_runs: clamp100(rm) != 0,
    }
}

/// The command for wheel speeds `lm` and `rm` in percent: each held within
/// `-100..=100`, times ten for the motors.
pub fn wheel_command(lm: i32, rm: i32) -> (c: WheelCommand)
    ensures
        c == scaled_command(lm as int, rm as int, 10),
{
    let lm = limit(lm);
    let rm = limit(rm);
    WheelCommand { left_speed: lm * 10, right_speed: rm * 10, left_runs: lm != 0, right_runs: rm != 0 }
}

/// The wheel command for driving with a steering and a speed.
pub fn steering_command(steering: i32, speed: i32) -> (c: WheelCommand)
    requires
        split_defined(steering as int, speed as int),
    ensures
        c == scaled_command(split_speeds(steering as int, speed as int).0, split_speeds(steering as int, speed as int).1, 10),
{
    let (lmot, rmot) = steering_split(steering, speed);
    wheel_command(lmot, rmot)
}

/// The message for the wheel synchroniser when driving with a steering and
/// a speed: the wheel speeds, whether to keep the wheels in step (only when
/// moving), and that the travelled distances start again from here.
pub fn pid_steering_message(steering: i32, speed: i32) -> (m: (i32, i32, bool, bool))
    requires
        split_defined(steering as int, speed as int),
    ensures
        (m.0 as int, m.1 as int) == split_speeds(steering as int, speed as int),
        m.2 == (speed != 0),
        m.3,
{
    let (lmot, rmot) = steering_split(steering, speed);
    if speed != 0 {
        (lmot, rmot, true, true)
    } else {
        (lmot, rmot, false, true)
    }
}

/// The message for the wheel synchroniser that changes the wheel speeds
/// without keeping them in step and without restarting the distances.
pub fn pid_steering_no_reset_message(steering: i32, speed: i32) -> (m: (i32, i32, bool, bool))
    requires
        split_defined(steering as int, speed as int),
    ensures
        (m.0 as int, m.1 as int) == split_speeds(steering as int, speed as int),
        !m.2,
        !m.3,
{
    let (lmot, rmot) = steering_split(steering, speed);
    (lmot, rmot, false, false)
}


// ----------------------------------------------------------------------------
// Distances travelled.

/// The absolute value of an integer.
pub open spec fn abs_int(v: int) -> int {
    if v < 0 {
        -v
    } else {
        v
    }
}

/// The absolute value of an `i32` other than `i32::MIN`.
pub fn iabs(v: i32) -> (r: i32)
    requires
        v != i32::MIN,
    ensures
        r == abs_int(v as int),
{
    if v < 0 {
        -v
    } else {
        v
    }
}

/// Both wheels' distances from the marks `cl`, `cr` to the positions `l`, `r`
/// and their absolute values stay within `i32`.
pub open spec fn travel_defined(cl: int, cr: int, l: int, r: int) -> bool {
    &&& fits_i32(l - cl)
    &&& fits_i32(r - cr)
    &&& l - cl != i32::MIN
    &&& r - cr != i32::MIN
}

/// `go_on_degrees` keeps driving while both wheels are less than `degrees`
/// away from where they started.
pub fn go_on_degrees_continues(cl: i32, cr: i32, lpos: i32, rpos: i32, degrees: i32) -> (b: bool)
    requires
        travel_defined(cl as int, cr as int, lpos as int, rpos as int),
    ensures
        b == (abs_int(lpos - cl) < degrees && abs_int(rpos - cr) < degrees),
{
    let l_diff = lpos - cl;
    let r_diff = rpos - cr;
    iabs(l_diff) < degrees && iabs(r_diff) < degrees
}

/// The average of the two wheels' distances, rounded toward zero.
pub open spec fn average_travel(cl: int, cr: int, l: int, r: int) -> int {
    (abs_int(l - cl) + abs_int(r - cr)) / 2
}

/// The average distance can be computed within `i32`.
pub open spec fn average_defined(cl: int, cr: int, l: int, r: int) -> bool {
    &&& travel_defined(cl, cr, l, r)
    &&& fits_i32(abs_int(l - cl) + abs_int(r - cr))
}

/// A ride measured in wheel degrees is over once the average distance of the
/// two wheels from their marks exceeds `degrees`.
pub fn travel_exceeds(cl: i32, cr: i32, lpos: i32, rpos: i32, degrees: i32) -> (b: bool)
    requires
        average_defined(cl as int, cr as int, lpos as int, rpos as int),
    ensures
        b == (average_travel(cl as int, cr as int, lpos as int, rpos as int) > degrees),
{
    let ldiff = iabs(lpos - cl);
    let rdiff = iabs(rpos - cr);
    let average = (ldiff + rdiff) / 2;
    average > degrees
}

/// The speed `go_on_stop` starts braking from: the mean of two absolute
/// speed readings.
pub fn go_on_stop_start_speed(a: i32, b: i32) -> (s: i32)
    requires
        a != i32::MIN,
        b != i32::MIN,
        fits_i32(abs_int(a as int) + abs_int(b as int)),
    ensures
        s == (abs_int(a as int) + abs_int(b as int)) / 2,
{
    (iabs(a) + iabs(b)) / 2
}

/// The speed `go_on_stop` drives at after travelling `distance` of
/// `degrees`: the start speed scaled down by the distance left, a tenth of it,
/// but never below 20.
pub open spec fn braking_speed(start_speed: int, degrees: int, distance: int) -> int {
    let cur = tdiv(start_speed * (degrees - distance), degrees);
    let tenth = tdiv(cur, 10);
    if tenth > 20 {
        tenth
    } else {
        20
    }
}

/// Whether `go_on_stop` has gone past `degrees` on either wheel.
pub open spec fn braking_done(cl: int, cr: int, l: int, r: int, degrees: int) -> bool {
    abs_int(l - cl) > degrees || abs_int(r - cr) > degrees
}

/// One look at the wheels while braking can be handled within `i32`, and
/// does not divide by zero.
pub open spec fn braking_defined(cl: int, cr: int, l: int, r: int, start_speed: int, degrees: int) -> bool {
    &&& average_defined(cl, cr, l, r)
    &&& !braking_done(cl, cr, l, r, degrees) ==> {
        &&& degrees != 0
        &&& fits_i32(degrees - average_travel(cl, cr, l, r))
        &&& fits_i32(start_speed * (degrees - average_travel(cl, cr, l, r)))
    }
}

/// One look at the wheels while braking toward a stop after `degrees`: `None`
/// once either wheel has gone further, else the speed to drive straight at.
pub fn go_on_stop_step(cl: i32, cr: i32, lpos: i32, rpos: i32, start_speed: i32, degrees: i32) -> (r: Option<i32>)
    requires
        braking_defined(cl as int, cr as int, lpos as int, rpos as int, start_speed as int, degrees as int),
    ensures
        match r {
            None => braking_done(cl as int, cr as int, lpos as int, rpos as int, degrees as int),
            Some(s) => !braking_done(cl as int, cr as int, lpos as int, rpos as int, degrees as int)
                && s == braking_speed(start_speed as int, degrees as int, average_travel(cl as int, cr as int, lpos as int, rpos as int)),
        },
        r matches Some(s) ==> s >= 20,
{
    let l_diff = lpos - cl;
    let r_diff = rpos - cr;
    if iabs(l_diff) > degrees || iabs(r_diff) > degrees {
        return None;
    }
    let distance = (iabs(l_diff) + iabs(r_diff)) / 2;
    let cur_speed = start_speed * (degrees - distance) / degrees;
    let tenth = cur_speed / 10;
    Some(if tenth > 20 { tenth } else { 20 })
}


// ----------------------------------------------------------------------------
// Keeping the wheels in step.

/// What the wheel synchroniser holds: the wheel speeds asked for, the wheel
/// positions its distances count from, and whether it keeps the wheels in step.
#[derive(Debug, Clone, Copy, PartialEq, Eq, Structural)]
pub struct SyncState {
    pub ls: i32,
    pub rs: i32,
    pub cls: i32,
    pub crs: i32,
    pub adjusting: bool,
}

/// The synchroniser before any message: standing, counting from 0.
pub fn sync_start() -> (s: SyncState)
    ensures
        s == (SyncState { ls: 0, rs: 0, cls: 0, crs: 0, adjusting: false }),
{
    SyncState { ls: 0, rs: 0, cls: 0, crs: 0, adjusting: false }
}

/// Whether the synchroniser blocks until the next message (it does when it is
/// not keeping the wheels in step), rather than only looking for one.
pub fn sync_waits(s: &SyncState) -> (b: bool)
    ensures
        b == !s.adjusting,
{
    !s.adjusting
}

/// The synchroniser after the message `msg`, with `positions` read when the
/// distances restart.
pub open spec fn received(s: SyncState, msg: (i32, i32, bool, bool), positions: (i32, i32)) -> SyncState {
    SyncState {
        ls: msg.0,
        rs: msg.1,
        adjusting: msg.2,
        cls: if msg.3 { positions.0 } else { s.cls },
        crs: if msg.3 { positions.1 } else { s.crs },
    }
}

/// Takes in a message `(left speed, right speed, keep in step, restart
/// distances)`; when the distances restart, `positions` holds the wheel
/// positions read at that moment.
pub fn sync_receive(s: SyncState, msg: (i32, i32, bool, bool), positions: (i32, i32)) -> (r: SyncState)
    ensures
        r == received(s, msg, positions),
{
    let mut r = s;
    r.ls = msg.0;
    r.rs = msg.1;
    r.adjusting = msg.2;
    if msg.3 {
        r.cls = positions.0;
        r.crs = positions.1;
    }
    r
}

/// How far the wheels are out of step, weighted by the speed asked of the
/// other wheel: `lc * rs - rc * ls` for the distances `lc`, `rc` counted
/// back from the marks.
pub open spec fn step_error(s: SyncState, lpos: int, rpos: int) -> int {
    (s.cls - lpos) * s.rs - (s.crs - rpos) * s.ls
}

/// The out-of-step error can be computed within `i32`.
pub open spec fn step_error_defined(s: SyncState, lpos: int, rpos: int) -> bool {
    &&& fits_i32(s.cls - lpos)
    &&& fits_i32(s.crs - rpos)
    &&& fits_i32((s.cls - lpos) * s.rs)
    &&& fits_i32((s.crs - rpos) * s.ls)
    &&& fits_i32(step_error(s, lpos, rpos))
}

/// The out-of-step error at the wheel positions `lpos`, `rpos`.
pub fn sync_error(s: &SyncState, lpos: i32, rpos: i32) -> (e: i32)
    requires
        step_error_defined(*s, lpos as int, rpos as int),
    ensures
        e == step_error(*s, lpos as int, rpos as int),
{
    let lc = s.cls - lpos;
    let rc = s.crs - rpos;
    lc * s.rs - rc * s.ls
}

/// The sign of an integer: -1, 0 or 1.
pub open spec fn signum(v: int) -> int {
    if v > 0 {
        1
    } else if v < 0 {
        -1
    } else {
        0
    }
}

/// The sign of an `i32`.
pub fn sign_of(v: i32) -> (r: i32)
    ensures
        r == signum(v as int),
{
    if v > 0 {
        1
    } else if v < 0 {
        -1
    } else {
        0
    }
}

/// The corrected wheel speeds for the correction `diff`: the left wheel
/// gains, the right one loses, each in the direction of the other's speed.
pub open spec fn corrected_speeds(s: SyncState, diff: int) -> (int, int) {
    (s.ls + signum(s.rs as int) * diff, s.rs - signum(s.ls as int) * diff)
}

/// The corrected speeds stay within `i32`.
pub open spec fn correction_defined(s: SyncState, diff: int) -> bool {
    &&& fits_i32(signum(s.rs as int) * diff)
    &&& fits_i32(signum(s.ls as int) * diff)
    &&& fits_i32(corrected_speeds(s, diff).0)
    &&& fits_i32(corrected_speeds(s, diff).1)
}

/// The wheel command that applies the correction `diff`.
pub fn sync_wheels(s: &SyncState, diff: i32) -> (c: WheelCommand)
    requires
        correction_defined(*s, diff as int),
    ensures
        c == scaled_command(corrected_speeds(*s, diff as int).0, corrected_speeds(*s, diff as int).1, 10),
        c.left_speed == 10 * clamp100(s.ls + (if s.rs > 0 { diff as int } else if s.rs < 0 { -(diff as int) } else { 0 })),
        c.right_speed == 10 * clamp100(s.rs - (if s.ls > 0 { diff as int } else if s.ls < 0 { -(diff as int) } else { 0 })),
{
    let sr = sign_of(s.rs);
    let sl = sign_of(s.ls);
    proof {
        if s.ls > 0 {
            assert(sl * diff == diff);
        } else if s.ls < 0 {
            assert(sl * diff == -diff);
        } else {
            assert(sl * diff == 0);
        }
        if s.rs > 0 {
            assert(sr * diff == diff);
        } else if s.rs < 0 {
            assert(sr * diff == -diff);
        } else {
            assert(sr * diff == 0);
        }
    }
    let lse = s.ls + sr * diff;
    let rse = s.rs - sl * diff;
    proof {
        assert(rse == s.rs - (if s.ls > 0 { diff as int } else if s.ls < 0 { -(diff as int) } else { 0 }));
        assert(-1000 <= 10 * clamp100(rse as int) <= 1000);
    }
    wheel_command(lse, rse)
}


// ----------------------------------------------------------------------------
// Following a line.

/// The spacing of `f32` values around a magnitude `a` above 2^24.
pub open spec fn f32_spacing(a: int) -> int {
    if a < 0x200_0000 {
        2
    } else if a < 0x400_0000 {
        4
    } else if a < 0x800_0000 {
        8
    } else if a < 0x1000_0000 {
        16
    } else if a < 0x2000_0000 {
        32
    } else if a < 0x4000_0000 {
        64
    } else if a < 0x8000_0000 {
        128
    } else {
        256
    }
}

/// An `i32` taken to `f32` and back: rounded to the nearest `f32`, ties to
/// an even significand, and held within `i32` on the way back.
pub open spec fn f32_round_trip(d: int) -> int {
    let a = abs_int(d);
    if a <= 0x100_0000 {
        d
    } else {
        let u = f32_spacing(a);
        let q = a / u;
        let rem = a % u;
        let q2 = if rem * 2 > u || (rem * 2 == u && q % 2 == 1) {
            q + 1
        } else {
            q
        };
        let m = if d < 0 {
            -(q2 * u)
        } else {
            q2 * u
        };
        if m > i32::MAX {
            i32::MAX as int
        } else if m < i32::MIN {
            i32::MIN as int
        } else {
            m
        }
    }
}

/// The error the cross ride steers by: the difference of the two sensors,
/// passed through `f32` and back.
pub fn cross_error(l: i32, r: i32) -> (e: i32)
    requires
        fits_i32(l - r),
    ensures
        e == f32_round_trip(l - r),
{
    let d = l - r;
    let a: i64 = if d < 0 { -(d as i64) } else { d as i64 };
    if a <= 0x100_0000 {
        return d;
    }
    let u: i64 = if a < 0x200_0000 {
        2
    } else if a < 0x400_0000 {
        4
    } else if a < 0x800_0000 {
        8
    } else if a < 0x1000_0000 {
        16
    } else if a < 0x2000_0000 {
        32
    } else if a < 0x4000_0000 {
        64
    } else if a < 0x8000_0000 {
        128
    } else {
        256
    };
    let q = a / u;
    let rem = a % u;
    let q2 = if rem * 2 > u || (rem * 2 == u && q % 2 == 1) {
        q + 1
    } else {
        q
    };
    proof {
        vstd::arithmetic::div_mod::lemma_fundamental_div_mod(a as int, u as int);
        assert(q2 * u <= a + u) by (nonlinear_arith)
            requires
                q2 <= q + 1,
                a == u * q + rem,
                0 <= rem,
                u > 0,
        ;
        assert(q2 * u >= 0) by (nonlinear_arith)
            requires
                q2 >= 0,
                u > 0,
        ;
    }
    let mag = q2 * u;
    let m = if d < 0 { -mag } else { mag };
    if m > 2147483647i64 {
        2147483647i32
    } else if m < -2147483648i64 {
        -2147483648i32
    } else {
        m as i32
    }
}

/// What a line ride steers by.
#[derive(Debug, Clone, Copy, PartialEq, Eq, Structural)]
pub enum LineError {
    /// The left sensor minus the right one.
    Difference,
    /// The left sensor minus the right one, passed through `f32`.
    RoundedDifference,
    /// The right sensor minus the middle grey: follows the line's right edge
    /// from outside.
    OuterRight,
    /// The middle grey minus the right sensor.
    InnerRight,
    /// The left sensor minus the middle grey.
    InnerLeft,
}

/// The steering error of a line ride for the sensor readings `l` and `r`.
pub open spec fn error_of(kind: LineError, cal: Calibration, l: int, r: int) -> int {
    match kind {
        LineError::Difference => l - r,
        LineError::RoundedDifference => f32_round_trip(l - r),
        LineError::OuterRight => r - cal.middle_grey,
        LineError::InnerRight => cal.middle_grey - r,
        LineError::InnerLeft => l - cal.middle_grey,
    }
}

/// The error of a kind can be computed within `i32`.
pub open spec fn error_defined(kind: LineError, cal: Calibration, l: int, r: int) -> bool {
    match kind {
        LineError::Difference => fits_i32(l - r),
        LineError::RoundedDifference => fits_i32(l - r),
        LineError::OuterRight => fits_i32(r - cal.middle_grey),
        LineError::InnerRight => fits_i32(cal.middle_grey - r),
        LineError::InnerLeft => fits_i32(l - cal.middle_grey),
    }
}

/// The steering error of a line ride.
pub fn line_error(kind: LineError, cal: &Calibration, l: i32, r: i32) -> (e: i32)
    requires
        error_defined(kind, *cal, l as int, r as int),
    ensures
        e == error_of(kind, *cal, l as int, r as int),
{
    match kind {
        LineError::Difference => l - r,
        LineError::RoundedDifference => cross_error(l, r),
        LineError::OuterRight => r - middle_grey(cal),
        LineError::InnerRight => middle_grey(cal) - r,
        LineError::InnerLeft => l - middle_grey(cal),
    }
}

/// Which sensor tells a line ride where to stop.
#[derive(Debug, Clone, Copy, PartialEq, Eq, Structural)]
pub enum StopSensor {
    /// The mean of both sensors, at a crossing line.
    Both,
    Left,
    Right,
}

/// How far a ride that stops on a line has got: first it rides until the
/// stop sensor sees white, then until it sees black.
#[derive(Debug, Clone, Copy, PartialEq, Eq, Structural)]
pub enum RidePhase {
    UntilWhite,
    UntilBlack,
    Done,
}

/// The reading of the stop sensor.
pub open spec fn stop_reading(stop: StopSensor, l: int, r: int) -> int {
    match stop {
        StopSensor::Both => tdiv(l + r, 2),
        StopSensor::Left => l,
        StopSensor::Right => r,
    }
}

/// The phase after a reading: a white reading ends the first phase, a black
/// one the second; otherwise the phase stays.
pub open spec fn phase_after(stop: StopSensor, phase: RidePhase, cal: Calibration, l: int, r: int) -> RidePhase {
    let v = stop_reading(stop, l, r);
    match phase {
        RidePhase::UntilWhite => if v > cal.white { RidePhase::UntilBlack } else { RidePhase::UntilWhite },
        RidePhase::UntilBlack => if v < cal.black { RidePhase::Done } else { RidePhase::UntilBlack },
        RidePhase::Done => RidePhase::Done,
    }
}

/// Where the ride stands after the readings `l` and `r`, taken once the
/// wheels have been steered for them.
pub fn ride_phase_after(stop: StopSensor, phase: RidePhase, cal: &Calibration, l: i32, r: i32) -> (p: RidePhase)
    requires
        stop == StopSensor::Both ==> fits_i32(l + r),
    ensures
        p == phase_after(stop, phase, *cal, l as int, r as int),
        stop == StopSensor::Right && phase == RidePhase::UntilWhite ==> (p == RidePhase::UntilBlack <==> r > cal.white),
        stop == StopSensor::Right && phase == RidePhase::UntilBlack ==> (p == RidePhase::Done <==> r < cal.black),
        stop == StopSensor::Left && phase == RidePhase::UntilWhite ==> (p == RidePhase::UntilBlack <==> l > cal.white),
        stop == StopSensor::Left && phase == RidePhase::UntilBlack ==> (p == RidePhase::Done <==> l < cal.black),
{
    let v = match stop {
        StopSensor::Both => (l + r) / 2,
        StopSensor::Left => l,
        StopSensor::Right => r,
    };
    match phase {
        RidePhase::UntilWhite => if v > white(cal) { RidePhase::UntilBlack } else { RidePhase::UntilWhite },
        RidePhase::UntilBlack => if v < black(cal) { RidePhase::Done } else { RidePhase::UntilBlack },
        RidePhase::Done => RidePhase::Done,
    }
}

/// How to ride along a line to a stop: what to steer by and which sensor stops.
#[derive(Debug, Clone, Copy, PartialEq, Eq, Structural)]
pub struct LineRule {
    pub error: LineError,
    pub stop: StopSensor,
}

/// The ride for each kind of stop a route asks for: to a crossing line
/// steering by both sensors; to a line on the left steering by the right
/// sensor; to a line on the right steering by the left one.
pub fn line_rule(kind: LineRide) -> (r: LineRule)
    ensures
        r == (match kind {
            LineRide::CrossStop => LineRule { error: LineError::RoundedDifference, stop: StopSensor::Both },
            LineRide::LeftStop => LineRule { error: LineError::InnerRight, stop: StopSensor::Left },
            LineRide::RightStop => LineRule { error: LineError::InnerLeft, stop: StopSensor::Right },
        }),
{
    match kind {
        LineRide::CrossStop => LineRule { error: LineError::RoundedDifference, stop: StopSensor::Both },
        LineRide::LeftStop => LineRule { error: LineError::InnerRight, stop: StopSensor::Left },
        LineRide::RightStop => LineRule { error: LineError::InnerLeft, stop: StopSensor::Right },
    }
}

/// What the ride along a line for a number of wheel degrees steers by: the
/// difference of the two sensors.
pub fn line_degrees_error() -> (e: LineError)
    ensures
        e == LineError::Difference,
{
    LineError::Difference
}

/// What the ride along the outside of a line for a number of wheel degrees
/// steers by: the right sensor against the middle grey.
pub fn outer_line_degrees_error() -> (e: LineError)
    ensures
        e == LineError::OuterRight,
{
    LineError::OuterRight
}

/// The ride along the outside of a line until a line on the left.
pub fn outer_line_left_stop_rule() -> (r: LineRule)
    ensures
        r == (LineRule { error: LineError::OuterRight, stop: StopSensor::Left }),
{
    LineRule { error: LineError::OuterRight, stop: StopSensor::Left }
}


// ----------------------------------------------------------------------------
// Turning on the spot across lines.

/// Where a turn across one line stands: looking for the floor, then the line,
/// then the floor past it.
#[derive(Debug, Clone, Copy, PartialEq, Eq, Structural)]
pub enum TurnStage {
    FirstWhite,
    Black,
    SecondWhite,
}

/// A turn on the spot across a number of lines, watched with the sensor on
/// the side it turns to.
#[derive(Debug, Clone, Copy, PartialEq, Eq, Structural)]
pub struct TurnProgress {
    pub right: bool,
    pub remaining: i32,
    pub stage: TurnStage,
}

/// Starts a turn across `count` lines, to the right when `count` is positive
/// and to the left when it is negative; `None` when there is nothing to turn.
pub fn turn_count_begin(count: i32) -> (r: Option<TurnProgress>)
    requires
        count != i32::MIN,
    ensures
        count == 0 ==> r is None,
        count > 0 ==> r == Some(TurnProgress { right: true, remaining: count, stage: TurnStage::FirstWhite }),
        count < 0 ==> r == Some(TurnProgress { right: false, remaining: (-count) as i32, stage: TurnStage::FirstWhite }),
{
    if count == 0 {
        None
    } else if count > 0 {
        Some(TurnProgress { right: true, remaining: count, stage: TurnStage::FirstWhite })
    } else {
        Some(TurnProgress { right: false, remaining: -count, stage: TurnStage::FirstWhite })
    }
}

/// The steering to turn with: full right or full left.
pub fn turn_steering(t: &TurnProgress) -> (s: i32)
    ensures
        s == (if t.right { 100i32 } else { -100i32 }),
{
    if t.right {
        100
    } else {
        -100
    }
}

/// Whether the turn has crossed all its lines.
pub fn turn_finished(t: &TurnProgress) -> (b: bool)
    ensures
        b == (t.remaining <= 0),
{
    t.remaining <= 0
}

/// The turn after one reading `l`, `r` of the sensors.
pub open spec fn turn_after(t: TurnProgress, cal: Calibration, l: int, r: int) -> TurnProgress {
    let v = if t.right { r } else { l };
    match t.stage {
        TurnStage::FirstWhite => if v > cal.white { TurnProgress { stage: TurnStage::Black, ..t } } else { t },
        TurnStage::Black => if v < cal.black { TurnProgress { stage: TurnStage::SecondWhite, ..t } } else { t },
        TurnStage::SecondWhite => if v > cal.white {
            TurnProgress { remaining: (t.remaining - 1) as i32, stage: TurnStage::FirstWhite, ..t }
        } else {
            t
        },
    }
}

/// Takes one reading of the sensors while turning.
pub fn turn_count_step(t: TurnProgress, cal: &Calibration, l: i32, r: i32) -> (n: TurnProgress)
    requires
        t.remaining > 0,
    ensures
        n == turn_after(t, *cal, l as int, r as int),
{
    let v = if t.right { r } else { l };
    match t.stage {
        TurnStage::FirstWhite => if v > white(cal) { TurnProgress { stage: TurnStage::Black, ..t } } else { t },
        TurnStage::Black => if v < black(cal) { TurnProgress { stage: TurnStage::SecondWhite, ..t } } else { t },
        TurnStage::SecondWhite => if v > white(cal) {
            TurnProgress { remaining: t.remaining - 1, stage: TurnStage::FirstWhite, ..t }
        } else {
            t
        },
    }
}


// ----------------------------------------------------------------------------
// Laws.

/// Reading a light level gives the value last set for it, and setting one
/// level leaves the other two as they were.
pub proof fn law_calibration_read_after_write(cal: Calibration, v: i32)
    ensures
        (Calibration { white: v, ..cal }).white == v,
        (Calibration { white: v, ..cal }).middle_grey == cal.middle_grey,
        (Calibration { white: v, ..cal }).black == cal.black,
        (Calibration { middle_grey: v, ..cal }).middle_grey == v,
        (Calibration { middle_grey: v, ..cal }).white == cal.white,
        (Calibration { middle_grey: v, ..cal }).black == cal.black,
        (Calibration { black: v, ..cal }).black == v,
        (Calibration { black: v, ..cal }).white == cal.white,
        (Calibration { black: v, ..cal }).middle_grey == cal.middle_grey,
{
}

/// Without steering both wheels run at the speed; at steering 50 either way
/// the inner wheel stands and the robot pivots on it; at steering 100 either
/// way the inner wheel runs backward at the speed and the robot spins in place.
pub proof fn law_steering_extremes(speed: int)
    ensures
        split_speeds(0, speed) == (speed, speed),
        split_speeds(50, speed) == (speed, 0int),
        split_speeds(-50, speed) == (0int, speed),
        split_speeds(100, speed) == (speed, -speed),
        split_speeds(-100, speed) == (-speed, speed),
{
}

/// For steering within `-100..=100` and a speed of at least 0, the outer
/// wheel keeps the speed and the inner one runs no faster, either way.
pub proof fn law_steering_bounds(steering: int, speed: int)
    requires
        -100 <= steering <= 100,
        speed >= 0,
    ensures
        steering > 0 ==> split_speeds(steering, speed).0 == speed && -speed <= split_speeds(steering, speed).1 <= speed,
        steering <= 0 ==> split_speeds(steering, speed).1 == speed && -speed <= split_speeds(steering, speed).0 <= speed,
{
    if steering > 0 {
        assert(0 <= steering * speed <= 100 * speed) by (nonlinear_arith)
            requires 0 < steering <= 100, speed >= 0;
    } else {
        assert(-100 * speed <= steering * speed <= 0) by (nonlinear_arith)
            requires -100 <= steering <= 0, speed >= 0;
    }
}

/// A wheel command never asks more than 1000 of a motor, and a motor runs
/// exactly when it is asked for a speed other than 0.
pub proof fn law_wheel_command_bounds(lm: int, rm: int)
    ensures
        -1000 <= scaled_command(lm, rm, 10).left_speed <= 1000,
        -1000 <= scaled_command(lm, rm, 10).right_speed <= 1000,
        scaled_command(lm, rm, 10).left_runs <==> scaled_command(lm, rm, 10).left_speed != 0,
        scaled_command(lm, rm, 10).right_runs <==> scaled_command(lm, rm, 10).right_speed != 0,
{
}

/// How far a ride to a stop has got: 0, 1 or 2.
pub open spec fn phase_rank(p: RidePhase) -> int {
    match p {
        RidePhase::UntilWhite => 0,
        RidePhase::UntilBlack => 1,
        RidePhase::Done => 2,
    }
}

/// A ride to a stop never goes back a phase, moves at most one phase per
/// reading, and once done stays done.
pub proof fn law_ride_phase_forward(stop: StopSensor, phase: RidePhase, cal: Calibration, l: int, r: int)
    ensures
        phase_rank(phase) <= phase_rank(phase_after(stop, phase, cal, l, r)) <= phase_rank(phase) + 1,
        phase == RidePhase::Done ==> phase_after(stop, phase, cal, l, r) == RidePhase::Done,
{
}

/// The sensor readings still needed, at least, to finish a turn: three per
/// line left to cross, fewer the further the current line is.
pub open spec fn turn_measure(t: TurnProgress) -> int {
    3 * t.remaining - match t.stage {
        TurnStage::FirstWhite => 0int,
        TurnStage::Black => 1int,
        TurnStage::SecondWhite => 2int,
    }
}

/// Whether a reading completes the stage of the turn the robot is in.
pub open spec fn turn_reading_counts(t: TurnProgress, cal: Calibration, l: int, r: int) -> bool {
    let v = if t.right { r } else { l };
    match t.stage {
        TurnStage::FirstWhite => v > cal.white,
        TurnStage::Black => v < cal.black,
        TurnStage::SecondWhite => v > cal.white,
    }
}

/// Each reading that completes a stage brings the turn one reading nearer its
/// end, other readings leave it where it is; a turn started for `count`
/// lines thus ends after exactly `3 * |count|` such readings, with nothing
/// left to cross.
pub proof fn law_turn_progress(t: TurnProgress, cal: Calibration, l: int, r: int)
    requires
        t.remaining > 0,
    ensures
        turn_reading_counts(t, cal, l, r) ==> turn_measure(turn_after(t, cal, l, r)) == turn_measure(t) - 1,
        !turn_reading_counts(t, cal, l, r) ==> turn_after(t, cal, l, r) == t,
        turn_after(t, cal, l, r).remaining >= 0,
        turn_measure(turn_after(t, cal, l, r)) == 0 <==> turn_after(t, cal, l, r).remaining == 0,
        turn_after(t, cal, l, r).right == t.right,
{
}

/// Whatever the synchroniser holds and whatever correction the controller
/// asks for, the motors are told at most 1000 either way and run exactly when
/// told a speed other than 0; after a message asking both wheels for 0 they
/// are told 0 and hold, whatever the correction.
pub proof fn law_synchroniser_commands(s: SyncState, msg: (i32, i32, bool, bool), positions: (i32, i32), diff: int)
    ensures
        ({
            let c = scaled_command(corrected_speeds(s, diff).0, corrected_speeds(s, diff).1, 10);
            &&& -1000 <= c.left_speed <= 1000
            &&& -1000 <= c.right_speed <= 1000
            &&& c.left_runs <==> c.left_speed != 0
            &&& c.right_runs <==> c.right_speed != 0
        }),
        msg.0 == 0 && msg.1 == 0 ==> ({
            let r = received(s, msg, positions);
            scaled_command(corrected_speeds(r, diff).0, corrected_speeds(r, diff).1, 10)
                == (WheelCommand { left_speed: 0, right_speed: 0, left_runs: false, right_runs: false })
        }),
{
    law_wheel_command_bounds(corrected_speeds(s, diff).0, corrected_speeds(s, diff).1);
}

/// The ride along the outside of a line steers by the right sensor alone:
/// the left reading changes nothing.
pub proof fn law_outer_ride_reads_right_only(cal: Calibration, l1: int, l2: int, r: int)
    ensures
        error_of(LineError::OuterRight, cal, l1, r) == error_of(LineError::OuterRight, cal, l2, r),
        error_of(LineError::OuterRight, cal, l1, r) == r - cal.middle_grey,
{
}

/// A ride that stops on one side watches that side's sensor alone: the
/// other reading changes nothing. Riding until white moves on exactly when
/// the watched reading is above the white level, riding until black ends
/// exactly when it is below the black level; a ride to a crossing line
/// watches both sensors alike, through their mean rounded toward zero.
pub proof fn law_stop_sensor_readings(p: RidePhase, cal: Calibration, l: int, l2: int, r: int, r2: int)
    ensures
        phase_after(StopSensor::Right, p, cal, l, r) == phase_after(StopSensor::Right, p, cal, l2, r),
        phase_after(StopSensor::Left, p, cal, l, r) == phase_after(StopSensor::Left, p, cal, l, r2),
        phase_after(StopSensor::Both, p, cal, l, r) == phase_after(StopSensor::Both, p, cal, r, l),
        phase_after(StopSensor::Right, RidePhase::UntilWhite, cal, l, r) == (if r > cal.white {
            RidePhase::UntilBlack
        } else {
            RidePhase::UntilWhite
        }),
        phase_after(StopSensor::Right, RidePhase::UntilBlack, cal, l, r) == (if r < cal.black {
            RidePhase::Done
        } else {
            RidePhase::UntilBlack
        }),
        phase_after(StopSensor::Left, RidePhase::UntilWhite, cal, l, r) == (if l > cal.white {
            RidePhase::UntilBlack
        } else {
            RidePhase::UntilWhite
        }),
        phase_after(StopSensor::Left, RidePhase::UntilBlack, cal, l, r) == (if l < cal.black {
            RidePhase::Done
        } else {
            RidePhase::UntilBlack
        }),
        l + r >= 0 ==> (phase_after(StopSensor::Both, RidePhase::UntilWhite, cal, l, r) == RidePhase::UntilBlack
            <==> l + r >= 2 * cal.white + 2),
        l + r >= 0 ==> (phase_after(StopSensor::Both, RidePhase::UntilBlack, cal, l, r) == RidePhase::Done
            <==> l + r < 2 * cal.black),
{
}

/// The synchroniser corrects each wheel in the direction of the other wheel's
/// speed: the left speed moves by `diff` when the right wheel runs forward,
/// by `-diff` when it runs backward and not at all when it stands, and the
/// right speed moves the opposite way by the left wheel's direction.
pub proof fn law_correction_follows_other_wheel(s: SyncState, diff: int)
    ensures
        corrected_speeds(s, diff).0 - s.ls == (if s.rs > 0 { diff } else if s.rs < 0 { -(diff as int) } else { 0 }),
        s.rs - corrected_speeds(s, diff).1 == (if s.ls > 0 { diff } else if s.ls < 0 { -(diff as int) } else { 0 }),
        -100 <= corrected_speeds(s, diff).0 <= 100 ==> scaled_command(corrected_speeds(s, diff).0, corrected_speeds(s, diff).1, 10).left_speed == 10 * corrected_speeds(s, diff).0,
        -100 <= corrected_speeds(s, diff).1 <= 100 ==> scaled_command(corrected_speeds(s, diff).0, corrected_speeds(s, diff).1, 10).right_speed == 10 * corrected_speeds(s, diff).1,
{
}

/// Braking never drives slower than 20 while the end is not reached, so the
/// robot always gets there; above that floor it drives at a tenth of the
/// start speed scaled by the share of the distance still to go.
pub proof fn law_braking_floor(start_speed: int, degrees: int, distance: int)
    requires
        degrees > 0,
    ensures
        braking_speed(start_speed, degrees, distance) >= 20,
        ({
            let cur = start_speed * (degrees - distance);
            let scaled = if cur >= 0 { cur / degrees } else { -((-cur) / degrees) };
            let tenth = if scaled >= 0 { scaled / 10 } else { -((-scaled) / 10) };
            braking_speed(start_speed, degrees, distance) == if tenth > 20 { tenth } else { 20 }
        }),
{
}

/// Small differences pass through `f32` unchanged.
pub proof fn law_small_difference_exact(d: int)
    requires
        -0x100_0000 <= d <= 0x100_0000,
    ensures
        f32_round_trip(d) == d,
{
}

} // verus!
