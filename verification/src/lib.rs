//! Route planning and motion decisions for a line-following EV3 robot.
use vstd::prelude::*;

pub mod graph;
pub mod line;
pub mod line_testing;
pub mod joystick;
pub mod drive;

verus! {
} // verus!
