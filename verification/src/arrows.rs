//! The four step arrows on a ring around the view cube: up, down, left and
//! right, each turning the view 15° that way, the way a drag of the cube
//! towards the arrow would.

use vstd::prelude::*;

verus! {

/// One of the four step arrows.
#[derive(Debug, Clone, Copy, PartialEq, Eq, Structural)]
pub enum StepArrow {
    Up,
    Right,
    Down,
    Left,
}

/// The unit screen direction an arrow points in, with +y down.
pub open spec fn arrow_direction(arrow: StepArrow) -> (int, int) {
    match arrow {
        StepArrow::Up => (0, -1),
        StepArrow::Right => (1, 0),
        StepArrow::Down => (0, 1),
        StepArrow::Left => (-1, 0),
    }
}

/// The sign of `x`.
pub open spec fn signum(x: int) -> int {
    if x > 0 { 1 } else if x < 0 { -1 } else { 0 }
}

/// Which way an arrow turns the view: the signs of `(delta_yaw,
/// delta_pitch)` a drag towards it makes, since a drag of `(dx, dy)` turns
/// the yaw by `-dx` and the pitch by `dy` at one rate.
pub open spec fn arrow_turn(arrow: StepArrow) -> (int, int) {
    let (dx, dy) = arrow_direction(arrow);
    (signum(-dx), signum(dy))
}

/// An arrow's tooltip.
pub open spec fn arrow_tooltip(arrow: StepArrow) -> Seq<char> {
    match arrow {
        StepArrow::Up => "Turn the view 15° up"@,
        StepArrow::Right => "Turn the view 15° right"@,
        StepArrow::Down => "Turn the view 15° down"@,
        StepArrow::Left => "Turn the view 15° left"@,
    }
}

impl StepArrow {
    /// Clockwise from 12 o'clock.
    pub const ALL: [StepArrow; 4] = [StepArrow::Up, StepArrow::Right, StepArrow::Down, StepArrow::Left];

    /// The unit screen direction the arrow points in, +y down.
    pub fn direction(self) -> (d: (i8, i8))
        ensures
            (d.0 as int, d.1 as int) == arrow_direction(self),
    {
        match self {
            StepArrow::Up => (0, -1),
            StepArrow::Right => (1, 0),
            StepArrow::Down => (0, 1),
            StepArrow::Left => (-1, 0),
        }
    }

    /// The signs of `(delta_yaw, delta_pitch)` one click turns the view
    /// by: the way a drag of the cube towards the arrow turns it, so arrows
    /// and drag cannot disagree. Each is then one step of 15°.
    pub fn turn(self) -> (signs: (i8, i8))
        ensures
            (signs.0 as int, signs.1 as int) == arrow_turn(self),
    {
        let (dx, dy) = self.direction();
        let yaw: i8 = if dx < 0 {
            1
        } else if dx > 0 {
            -1
        } else {
            0
        };
        let pitch: i8 = if dy > 0 {
            1
        } else if dy < 0 {
            -1
        } else {
            0
        };
        (yaw, pitch)
    }

    /// The arrow's tooltip.
    pub fn tooltip(self) -> (tip: &'static str)
        ensures
            tip@ == arrow_tooltip(self),
    {
        match self {
            StepArrow::Up => "Turn the view 15° up",
            StepArrow::Right => "Turn the view 15° right",
            StepArrow::Down => "Turn the view 15° down",
            StepArrow::Left => "Turn the view 15° left",
        }
    }
}

/// Opposite arrows undo each other: their turns cancel, and each arrow
/// turns about exactly one of the two axes.
pub proof fn lemma_opposite_arrows_cancel()
    ensures
        arrow_turn(StepArrow::Up).0 + arrow_turn(StepArrow::Down).0 == 0,
        arrow_turn(StepArrow::Up).1 + arrow_turn(StepArrow::Down).1 == 0,
        arrow_turn(StepArrow::Left).0 + arrow_turn(StepArrow::Right).0 == 0,
        arrow_turn(StepArrow::Left).1 + arrow_turn(StepArrow::Right).1 == 0,
        forall|a: StepArrow| #![trigger arrow_turn(a)]
            (arrow_turn(a).0 == 0) != (arrow_turn(a).1 == 0),
{
}

} // verus!
