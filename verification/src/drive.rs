//! What the robot does for a planned route, and the decisions of driving it
//! by hand with the game pad.
use vstd::prelude::*;
use crate::graph::{LineRide, MoveAction};
use crate::joystick::GamePadState;
use crate::line::{fits_i32, tdiv};

verus! {

/// One step of carrying out a route.
#[derive(Debug, Clone, Copy, PartialEq, Eq, Structural)]
pub enum DriveStep {
    /// Follow the line to the kind of stop given.
    Ride(LineRide),
    /// Drive on until the wheels are over the crossing.
    Center,
    /// Stop the wheels.
    Halt,
    /// Wait a moment for the robot to settle.
    Pause,
    /// Turn on the spot across the given number of lines (negative: left).
    Turn(i32),
}

/// The steps for the moves `actions`, when the robot starts over a crossing
/// (`centered`) or just after a line ride: before each turn the robot is
/// brought over the crossing if it is not, stopped and settled; at the end it
/// is brought over the crossing and stopped.
pub open spec fn steps_for(actions: Seq<MoveAction>, centered: bool) -> Seq<DriveStep>
    decreases actions.len(),
{
    if actions.len() == 0 {
        (if centered { Seq::empty() } else { seq![DriveStep::Center] }) + seq![DriveStep::Halt]
    } else {
        match actions[0] {
            MoveAction::LineRide(k) => seq![DriveStep::Ride(k)] + steps_for(actions.drop_first(), false),
            MoveAction::Rotate(c) => (if centered { Seq::empty() } else { seq![DriveStep::Center] })
                + seq![DriveStep::Halt, DriveStep::Pause, DriveStep::Turn(c)]
                + steps_for(actions.drop_first(), true),
        }
    }
}

/// The steps that carry out a planned route, starting over a crossing.
pub fn route_steps(path: &Vec<MoveAction>) -> (steps: Vec<DriveStep>)
    ensures
        steps@ == steps_for(path@, true),
        forall|j: int|
            0 <= j < steps@.len() && #[trigger] steps@[j] is Center ==> j + 1 < steps@.len() && steps@[j + 1]
                == DriveStep::Halt,
{
    let mut steps: Vec<DriveStep> = Vec::new();
    let mut is_centered = true;
    let mut i: usize = 0;
    assert(path@.subrange(0, path@.len() as int) =~= path@);
    assert(steps@ + steps_for(path@, true) =~= steps_for(path@, true));
    while i < path.len()
        invariant
            i <= path.len(),
            steps@ + steps_for(path@.subrange(i as int, path@.len() as int), is_centered) == steps_for(path@, true),
        decreases path.len() - i,
    {
        let ghost rest = path@.subrange(i as int, path@.len() as int);
        assert(rest.drop_first() =~= path@.subrange(i + 1, path@.len() as int));
        assert(rest[0] == path@[i as int]);
        let ghost before = steps@;
        let ghost was_centered = is_centered;
        match path[i] {
            MoveAction::LineRide(k) => {
                steps.push(DriveStep::Ride(k));
                is_centered = false;
                assert(steps@ + steps_for(rest.drop_first(), false) =~= before + steps_for(rest, was_centered));
            },
            MoveAction::Rotate(c) => {
                if !is_centered {
                    steps.push(DriveStep::Center);
                    is_centered = true;
                }
                steps.push(DriveStep::Halt);
                steps.push(DriveStep::Pause);
                steps.push(DriveStep::Turn(c));
                assert(steps@ + steps_for(rest.drop_first(), true) =~= before + steps_for(rest, was_centered));
            },
        }
        i = i + 1;
    }
    assert(path@.subrange(path.len() as int, path.len() as int) =~= Seq::<MoveAction>::empty());
    if !is_centered {
        steps.push(DriveStep::Center);
    }
    steps.push(DriveStep::Halt);
    proof {
        lemma_center_before_halt(path@, true);
    }
    steps
}


/// Turning toward a crossing: the first move of the route there, when it is a
/// rotation.
pub fn first_rotation(path: &Vec<MoveAction>) -> (r: Option<MoveAction>)
    ensures
        r == (if path@.len() > 0 && path@[0] is Rotate { Some(path@[0]) } else { None::<MoveAction> }),
{
    if path.len() == 0 {
        return None;
    }
    match path[0] {
        MoveAction::Rotate(c) => Some(MoveAction::Rotate(c)),
        MoveAction::LineRide(_) => None,
    }
}

// ----------------------------------------------------------------------------
// Driving by hand.

/// The state of driving by hand: the pad mode (0 drives; 1 is locked; 2
/// waits for triangle to return to 0), which way the wheels turn (1 forward,
/// -1 back, 0 standing), the steering, and the wheel positions marked last.
#[derive(Debug, Clone, Copy, PartialEq, Eq, Structural)]
pub struct JoyDrive {
    pub mode: i32,
    pub motion: i32,
    pub steering: i32,
    pub lc: i32,
    pub rc: i32,
}

/// What to do for one look at the pad.
#[derive(Debug, Clone, Copy, PartialEq, Eq, Structural)]
pub enum JoyAction {
    /// Nothing beyond the usual short wait.
    Idle,
    /// Drive with this steering and speed, keeping the wheels in step.
    Drive(i32, i32),
    /// Stop the wheels.
    Halt,
    /// Read the wheel positions and mark them.
    Mark,
    /// Read the wheel positions, report the distances from the marks, and
    /// wait a second.
    Report,
    /// Wait half a second after switching the pad mode.
    SwitchMode,
    /// Look again at once, without the usual wait.
    Skip,
    /// Wait a second and stop driving by hand.
    Finish,
}

/// Driving by hand before anything was pressed, with the marks at the wheel
/// positions `lc`, `rc`.
pub fn joy_start(lc: i32, rc: i32) -> (s: JoyDrive)
    ensures
        s == (JoyDrive { mode: 0, motion: 0, steering: 0, lc, rc }),
{
    JoyDrive { mode: 0, motion: 0, steering: 0, lc, rc }
}

/// The steering the left stick gives: its position scaled to percent.
pub open spec fn stick_steering(lx: int) -> int {
    tdiv(lx * 100, 128)
}

/// The state and the action after one look at the pad, the buttons taken in
/// the order: right trigger, left trigger, cross, circle, triangle, square,
/// share.
pub open spec fn joy_next(s: JoyDrive, pad: GamePadState, speed: int) -> (JoyDrive, JoyAction) {
    if s.mode == 0 {
        if pad.rt_b {
            if s.motion != 1 {
                (JoyDrive { motion: 1, ..s }, JoyAction::Drive(s.steering, speed as i32))
            } else {
                (s, JoyAction::Idle)
            }
        } else if pad.lt_b {
            if s.motion != -1 {
                (JoyDrive { motion: -1i32, ..s }, JoyAction::Drive(s.steering, (-speed) as i32))
            } else {
                (s, JoyAction::Idle)
            }
        } else if pad.cross {
            (JoyDrive { steering: stick_steering(pad.lx as int) as i32, ..s }, JoyAction::Idle)
        } else if pad.circle {
            (s, JoyAction::Mark)
        } else if pad.triangle {
            (JoyDrive { mode: 1, ..s }, JoyAction::SwitchMode)
        } else if pad.square {
            if s.motion != 0 {
                (s, JoyAction::Skip)
            } else {
                (s, JoyAction::Report)
            }
        } else if pad.share {
            if s.motion == 0 {
                (s, JoyAction::Finish)
            } else {
                (s, JoyAction::Idle)
            }
        } else if s.motion != 0 {
            (JoyDrive { motion: 0, ..s }, JoyAction::Halt)
        } else {
            (s, JoyAction::Idle)
        }
    } else if s.mode == 2 {
        if !pad.rt_b && !pad.lt_b && !pad.cross && !pad.circle && pad.triangle {
            (JoyDrive { mode: 0, ..s }, JoyAction::SwitchMode)
        } else {
            (s, JoyAction::Idle)
        }
    } else {
        (s, JoyAction::Idle)
    }
}

/// One look at the pad can be handled within `i32`.
pub open spec fn joy_step_defined(s: JoyDrive, pad: GamePadState, speed: int) -> bool {
    &&& (s.mode == 0 && !pad.rt_b && pad.lt_b && s.motion != -1) ==> speed != i32::MIN
    &&& (s.mode == 0 && !pad.rt_b && !pad.lt_b && pad.cross) ==> fits_i32(pad.lx * 100)
}

/// Decides what to do for one look at the pad while driving by hand at `speed`.
pub fn joystick_step(s: JoyDrive, pad: &GamePadState, speed: i32) -> (r: (JoyDrive, JoyAction))
    requires
        joy_step_defined(s, *pad, speed as int),
    ensures
        r == joy_next(s, *pad, speed as int),
{
    let mut st = s;
    if st.mode == 0 {
        if pad.rt_b {
            if st.motion != 1 {
                st.motion = 1;
                return (st, JoyAction::Drive(st.steering, speed));
            }
        } else if pad.lt_b {
            if st.motion != -1 {
                st.motion = -1;
                return (st, JoyAction::Drive(st.steering, -speed));
            }
        } else if pad.cross {
            st.steering = pad.lx * 100 / 128;
        } else if pad.circle {
            return (st, JoyAction::Mark);
        } else if pad.triangle {
            st.mode = 1;
            return (st, JoyAction::SwitchMode);
        } else if pad.square {
            if st.motion != 0 {
                return (st, JoyAction::Skip);
            }
            return (st, JoyAction::Report);
        } else if pad.share {
            if st.motion == 0 {
                return (st, JoyAction::Finish);
            }
        } else {
            if st.motion != 0 {
                st.motion = 0;
                return (st, JoyAction::Halt);
            }
        }
    } else if st.mode == 2 {
        if pad.rt_b {
        } else if pad.lt_b {
        } else if pad.cross {
        } else if pad.circle {
        } else if pad.triangle {
            st.mode = 0;
            return (st, JoyAction::SwitchMode);
        }
    }
    (st, JoyAction::Idle)
}

/// Marks the wheel positions `l`, `r`.
pub fn joy_mark(s: JoyDrive, l: i32, r: i32) -> (n: JoyDrive)
    ensures
        n == (JoyDrive { lc: l, rc: r, ..s }),
{
    JoyDrive { lc: l, rc: r, ..s }
}

/// What a report shows for the wheel positions `l`, `r`: the left distance
/// from its mark (the left wheel is mirrored), the right one, and the
/// steering.
pub fn joy_report(s: &JoyDrive, l: i32, r: i32) -> (out: (i32, i32, i32))
    requires
        fits_i32(l - s.lc),
        l - s.lc != i32::MIN,
        fits_i32(r - s.rc),
    ensures
        out.0 == -(l - s.lc),
        out.1 == r - s.rc,
        out.2 == s.steering,
{
    (-(l - s.lc), r - s.rc, s.steering)
}


// ----------------------------------------------------------------------------
// Laws.

/// Whether the robot is over a crossing after the first `j` of `steps`, when
/// it started over one exactly if `start` holds: a line ride leaves the
/// crossing, centring brings it back.
pub open spec fn centered_after(start: bool, steps: Seq<DriveStep>, j: nat) -> bool
    decreases j,
{
    if j == 0 {
        start
    } else {
        match steps[j - 1] {
            DriveStep::Ride(_) => false,
            DriveStep::Center => true,
            _ => centered_after(start, steps, (j - 1) as nat),
        }
    }
}

proof fn lemma_centered_concat(start: bool, p: Seq<DriveStep>, q: Seq<DriveStep>, j: nat)
    requires
        j <= q.len(),
    ensures
        centered_after(start, p + q, (p.len() + j) as nat) == centered_after(centered_after(start, p, p.len()), q, j),
    decreases j,
{
    if j == 0 {
        assert(centered_after(start, p + q, p.len()) == centered_after(start, p, p.len())) by {
            lemma_centered_prefix(start, p, q, p.len());
        }
    } else {
        lemma_centered_concat(start, p, q, (j - 1) as nat);
        assert((p + q)[p.len() + j - 1] == q[j - 1]);
    }
}

proof fn lemma_centered_prefix(start: bool, p: Seq<DriveStep>, q: Seq<DriveStep>, j: nat)
    requires
        j <= p.len(),
    ensures
        centered_after(start, p + q, j) == centered_after(start, p, j),
    decreases j,
{
    if j > 0 {
        lemma_centered_prefix(start, p, q, (j - 1) as nat);
        assert((p + q)[j - 1] == p[j - 1]);
    }
}

/// The steps' own moves: the rides and turns, in order.
pub open spec fn moves_of(steps: Seq<DriveStep>) -> Seq<MoveAction>
    decreases steps.len(),
{
    if steps.len() == 0 {
        Seq::empty()
    } else {
        let rest = moves_of(steps.drop_first());
        match steps[0] {
            DriveStep::Ride(k) => seq![MoveAction::LineRide(k)] + rest,
            DriveStep::Turn(c) => seq![MoveAction::Rotate(c)] + rest,
            _ => rest,
        }
    }
}

proof fn lemma_moves_of_concat(p: Seq<DriveStep>, q: Seq<DriveStep>)
    ensures
        moves_of(p + q) == moves_of(p) + moves_of(q),
    decreases p.len(),
{
    if p.len() == 0 {
        assert(p + q =~= q);
    } else {
        lemma_moves_of_concat(p.drop_first(), q);
        assert((p + q).drop_first() =~= p.drop_first() + q);
        assert(moves_of(p + q) =~= moves_of(p) + moves_of(q));
    }
}

proof fn lemma_steps_for(actions: Seq<MoveAction>, c: bool)
    ensures
        ({
            let s = steps_for(actions, c);
            &&& s.len() >= 1
            &&& s.last() == DriveStep::Halt
            &&& centered_after(c, s, s.len())
            &&& forall|j: int| 0 <= j < s.len() && #[trigger] s[j] is Turn ==> centered_after(c, s, j as nat)
            &&& moves_of(s) == actions
        }),
    decreases actions.len(),
{
    let s = steps_for(actions, c);
    let pre = if c { Seq::<DriveStep>::empty() } else { seq![DriveStep::Center] };
    if actions.len() == 0 {
        let tail = seq![DriveStep::Halt];
        assert(s == pre + tail);
        lemma_centered_concat(c, pre, tail, 0);
        lemma_centered_concat(c, pre, tail, 1);
        assert(tail.drop_first() =~= Seq::<DriveStep>::empty());
        assert(moves_of(tail.drop_first()) =~= Seq::<MoveAction>::empty());
        assert(moves_of(tail) =~= Seq::<MoveAction>::empty());
        assert(moves_of(pre) =~= Seq::<MoveAction>::empty()) by {
            if !c {
                assert(pre.drop_first() =~= Seq::<DriveStep>::empty());
                assert(moves_of(pre.drop_first()) =~= Seq::<MoveAction>::empty());
            }
        }
        lemma_moves_of_concat(pre, tail);
    } else {
        let rest_actions = actions.drop_first();
        match actions[0] {
            MoveAction::LineRide(k) => {
                let head = seq![DriveStep::Ride(k)];
                let rest = steps_for(rest_actions, false);
                lemma_steps_for(rest_actions, false);
                assert(s == head + rest);
                assert(centered_after(c, head, 1) == false);
                lemma_centered_concat(c, head, rest, rest.len());
                assert forall|j: int| 0 <= j < s.len() && #[trigger] s[j] is Turn implies centered_after(c, s, j as nat) by {
                    assert(j >= 1);
                    assert(s[j] == rest[j - 1]);
                    lemma_centered_concat(c, head, rest, (j - 1) as nat);
                }
                lemma_moves_of_concat(head, rest);
                assert(head.drop_first() =~= Seq::<DriveStep>::empty());
                assert(moves_of(head.drop_first()) =~= Seq::<MoveAction>::empty());
                assert(moves_of(head) =~= seq![MoveAction::LineRide(k)]);
                assert(actions =~= seq![MoveAction::LineRide(k)] + rest_actions);
            },
            MoveAction::Rotate(n) => {
                let t3 = seq![DriveStep::Halt, DriveStep::Pause, DriveStep::Turn(n)];
                let head = pre + t3;
                let rest = steps_for(rest_actions, true);
                lemma_steps_for(rest_actions, true);
                assert(s == head + rest);
                let hl = head.len();
                assert(centered_after(c, head, pre.len() as nat)) by {
                    lemma_centered_prefix(c, pre, t3, pre.len());
                    if !c {
                        assert(pre[0] is Center);
                    }
                }
                assert(head[hl - 1] is Turn);
                assert(head[hl - 2] is Pause);
                assert(head[hl - 3] is Halt);
                assert(centered_after(c, head, (hl - 2) as nat) == centered_after(c, head, (hl - 3) as nat));
                assert(centered_after(c, head, (hl - 1) as nat) == centered_after(c, head, (hl - 2) as nat));
                assert(centered_after(c, head, hl as nat) == centered_after(c, head, (hl - 1) as nat));
                lemma_centered_concat(c, head, rest, rest.len());
                assert forall|j: int| 0 <= j < s.len() && #[trigger] s[j] is Turn implies centered_after(c, s, j as nat) by {
                    if j < hl {
                        assert(s[j] == head[j]);
                        assert(j == hl - 1);
                        lemma_centered_prefix(c, head, rest, j as nat);
                    } else {
                        assert(s[j] == rest[j - hl]);
                        lemma_centered_concat(c, head, rest, (j - hl) as nat);
                    }
                }
                lemma_moves_of_concat(head, rest);
                lemma_moves_of_concat(pre, seq![DriveStep::Halt, DriveStep::Pause, DriveStep::Turn(n)]);
                assert(t3.drop_first() =~= seq![DriveStep::Pause, DriveStep::Turn(n)]);
                assert(t3.drop_first().drop_first() =~= seq![DriveStep::Turn(n)]);
                assert(t3.drop_first().drop_first().drop_first() =~= Seq::<DriveStep>::empty());
                assert(moves_of(t3.drop_first().drop_first().drop_first()) =~= Seq::<MoveAction>::empty());
                assert(moves_of(t3.drop_first().drop_first()) =~= seq![MoveAction::Rotate(n)]);
                assert(moves_of(t3.drop_first()) =~= seq![MoveAction::Rotate(n)]);
                assert(moves_of(t3) =~= seq![MoveAction::Rotate(n)]);
                assert(moves_of(pre) =~= Seq::<MoveAction>::empty()) by {
                    if !c {
                        assert(pre.drop_first() =~= Seq::<DriveStep>::empty());
                        assert(moves_of(pre.drop_first()) =~= Seq::<MoveAction>::empty());
                    }
                }
                assert(actions =~= seq![MoveAction::Rotate(n)] + rest_actions);
            },
        }
    }
}

proof fn lemma_center_before_halt(actions: Seq<MoveAction>, c: bool)
    ensures
        forall|j: int|
            0 <= j < steps_for(actions, c).len() && #[trigger] steps_for(actions, c)[j] is Center ==> j + 1
                < steps_for(actions, c).len() && steps_for(actions, c)[j + 1] == DriveStep::Halt,
    decreases actions.len(),
{
    let s = steps_for(actions, c);
    let pre = if c { Seq::<DriveStep>::empty() } else { seq![DriveStep::Center] };
    if actions.len() == 0 {
        assert(s == pre + seq![DriveStep::Halt]);
    } else {
        let rest_actions = actions.drop_first();
        match actions[0] {
            MoveAction::LineRide(k) => {
                let rest = steps_for(rest_actions, false);
                lemma_center_before_halt(rest_actions, false);
                assert(s == seq![DriveStep::Ride(k)] + rest);
                assert forall|j: int| 0 <= j < s.len() && #[trigger] s[j] is Center implies j + 1 < s.len()
                    && s[j + 1] == DriveStep::Halt by {
                    assert(j >= 1);
                    assert(s[j] == rest[j - 1]);
                    assert(s[j + 1] == rest[j]);
                }
            },
            MoveAction::Rotate(n) => {
                let rest = steps_for(rest_actions, true);
                lemma_center_before_halt(rest_actions, true);
                let head = pre + seq![DriveStep::Halt, DriveStep::Pause, DriveStep::Turn(n)];
                assert(s == head + rest);
                let hl = head.len();
                assert forall|j: int| 0 <= j < s.len() && #[trigger] s[j] is Center implies j + 1 < s.len()
                    && s[j + 1] == DriveStep::Halt by {
                    if j < hl {
                        assert(s[j] == head[j]);
                        assert(j == 0 && !c);
                        assert(s[1] == head[1]);
                    } else {
                        assert(s[j] == rest[j - hl]);
                        assert(s[j + 1] == rest[j - hl + 1]);
                    }
                }
            },
        }
    }
}

/// The robot is only brought over a crossing right before it stops, for a
/// turn or at the end: every centring step of a route is followed at once by
/// a halt, so line rides in a row are ridden one after the other.
pub proof fn law_center_only_before_halt(actions: Seq<MoveAction>)
    ensures
        forall|j: int|
            0 <= j < steps_for(actions, true).len() && #[trigger] steps_for(actions, true)[j] is Center
                ==> j + 1 < steps_for(actions, true).len() && steps_for(actions, true)[j + 1] == DriveStep::Halt,
{
    lemma_center_before_halt(actions, true);
}

/// Carrying out a route rides and turns exactly the route's moves, in order;
/// the robot is over a crossing whenever it turns and at the end, where it
/// stops.
pub proof fn law_route_steps(actions: Seq<MoveAction>)
    ensures
        moves_of(steps_for(actions, true)) == actions,
        forall|j: int|
            0 <= j < steps_for(actions, true).len() && #[trigger] steps_for(actions, true)[j] is Turn
                ==> centered_after(true, steps_for(actions, true), j as nat),
        centered_after(true, steps_for(actions, true), steps_for(actions, true).len()),
        steps_for(actions, true).last() == DriveStep::Halt,
{
    lemma_steps_for(actions, true);
}

/// Driving by hand only ends with the wheels standing, only starts the
/// wheels from the driving mode and never sends the same direction twice in
/// a row; a locked pad does nothing.
pub proof fn law_hand_drive(s: JoyDrive, pad: GamePadState, speed: int)
    ensures
        joy_next(s, pad, speed).1 == JoyAction::Finish ==> s.motion == 0,
        joy_next(s, pad, speed).1 is Drive ==> s.mode == 0 && joy_next(s, pad, speed).0.motion != s.motion,
        s.mode == 1 ==> joy_next(s, pad, speed) == (s, JoyAction::Idle),
        joy_next(s, pad, speed).1 == JoyAction::Halt ==> joy_next(s, pad, speed).0.motion == 0,
{
}

} // verus!
