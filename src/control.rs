//! Translation of held direction keys into velocity and spin nudges.

use vstd::prelude::*;

verus! {

/// The six direction commands that can be held during one step.
#[derive(Clone, Copy, Debug, PartialEq, Eq, Structural, Default)]
pub struct ControlFlags {
    pub left: bool,
    pub right: bool,
    pub up: bool,
    pub down: bool,
    pub spin_ccw: bool,
    pub spin_cw: bool,
}

/// Per-step nudges, in whole units: one unit of velocity is `1.0`, one unit
/// of angular velocity is `0.01`.
#[derive(Clone, Copy, Debug, PartialEq, Eq, Structural)]
pub struct Nudge {
    pub dx: i8,
    pub dy: i8,
    pub dr: i8,
}

/// +1 for a held positive key, -1 for a held negative key, their sum when both.
pub open spec fn axis(pos: bool, neg: bool) -> int {
    (if pos { 1int } else { 0int }) - (if neg { 1int } else { 0int })
}

fn axis_exec(pos: bool, neg: bool) -> (r: i8)
    ensures
        r as int == axis(pos, neg),
{
    let mut r: i8 = 0;
    if pos {
        r = r + 1;
    }
    if neg {
        r = r - 1;
    }
    r
}

/// The nudges that the held keys ask for: right/left on x, up/down on y,
/// counter-clockwise/clockwise on the spin.
pub fn nudge(flags: ControlFlags) -> (r: Nudge)
    ensures
        r.dx as int == axis(flags.right, flags.left),
        r.dy as int == axis(flags.up, flags.down),
        r.dr as int == axis(flags.spin_ccw, flags.spin_cw),
{
    Nudge {
        dx: axis_exec(flags.right, flags.left),
        dy: axis_exec(flags.up, flags.down),
        dr: axis_exec(flags.spin_ccw, flags.spin_cw),
    }
}

} // verus!
