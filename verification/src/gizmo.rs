//! The rotate gizmo's three rings, each turning about one axis of the
//! local frame the gizmo is drawn on.

use vstd::prelude::*;

verus! {

/// One of the rotate gizmo's three rings.
#[derive(Debug, Clone, Copy, PartialEq, Eq, Structural)]
pub enum RingAxis {
    X,
    Y,
    Z,
}

/// The name `debug_state` reports.
pub open spec fn ring_label(axis: RingAxis) -> Seq<char> {
    match axis {
        RingAxis::X => "x"@,
        RingAxis::Y => "y"@,
        RingAxis::Z => "z"@,
    }
}

/// The unit axis in the gizmo's own frame.
pub open spec fn ring_local(axis: RingAxis) -> (i8, i8, i8) {
    match axis {
        RingAxis::X => (1, 0, 0),
        RingAxis::Y => (0, 1, 0),
        RingAxis::Z => (0, 0, 1),
    }
}

impl RingAxis {
    /// The order the rings are tested in; ties break on depth, not on this.
    pub const ALL: [RingAxis; 3] = [RingAxis::X, RingAxis::Y, RingAxis::Z];

    /// The name `debug_state` reports.
    pub fn label(self) -> (label: &'static str)
        ensures
            label@ == ring_label(self),
    {
        match self {
            RingAxis::X => "x",
            RingAxis::Y => "y",
            RingAxis::Z => "z",
        }
    }

    /// The axis in the gizmo's own frame, as the unit vector's components.
    pub fn local(self) -> (axis: (i8, i8, i8))
        ensures
            axis == ring_local(self),
    {
        match self {
            RingAxis::X => (1, 0, 0),
            RingAxis::Y => (0, 1, 0),
            RingAxis::Z => (0, 0, 1),
        }
    }
}

/// The three rings turn about three different axes, each a unit vector.
pub proof fn lemma_rings_are_the_basis(a: RingAxis, b: RingAxis)
    ensures
        a != b ==> ring_local(a) != ring_local(b),
        ({
            let (x, y, z) = ring_local(a);
            x * x + y * y + z * z == 1
        }),
{
    match a {
        RingAxis::X => assert(1i8 * 1i8 + 0i8 * 0i8 + 0i8 * 0i8 == 1) by (nonlinear_arith),
        RingAxis::Y => assert(0i8 * 0i8 + 1i8 * 1i8 + 0i8 * 0i8 == 1) by (nonlinear_arith),
        RingAxis::Z => assert(0i8 * 0i8 + 0i8 * 0i8 + 1i8 * 1i8 == 1) by (nonlinear_arith),
    }
}

} // verus!
