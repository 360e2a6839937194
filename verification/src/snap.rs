//! Snapping: what the cursor is really pointing at. The candidates, in the
//! order they beat each other: a vertex of the hit triangle, a corner or
//! face centre of the part's box, the fitted circle of a bore or shaft, and
//! the hit point itself, which always exists.

use vstd::prelude::*;

verus! {

/// What kind of thing the cursor snapped to, most specific first — this
/// order is the priority ladder.
#[derive(Debug, Clone, Copy, PartialEq, Eq, PartialOrd, Ord, Structural)]
pub enum SnapKind {
    Vertex,
    BoxCorner,
    BoxFaceCenter,
    Circle,
    Point,
}

/// The readout's name for a kind.
pub open spec fn snap_label(kind: SnapKind) -> Seq<char> {
    match kind {
        SnapKind::Vertex => "vertex"@,
        SnapKind::BoxCorner => "box corner"@,
        SnapKind::BoxFaceCenter => "box face"@,
        SnapKind::Circle => "circle"@,
        SnapKind::Point => "point"@,
    }
}

/// A kind's place on the ladder: lower wins.
pub open spec fn snap_rank(kind: SnapKind) -> int {
    match kind {
        SnapKind::Vertex => 0,
        SnapKind::BoxCorner => 1,
        SnapKind::BoxFaceCenter => 2,
        SnapKind::Circle => 3,
        SnapKind::Point => 4,
    }
}

impl SnapKind {
    /// The readout's name for this kind.
    pub fn label(self) -> (label: &'static str)
        ensures
            label@ == snap_label(self),
    {
        match self {
            SnapKind::Vertex => "vertex",
            SnapKind::BoxCorner => "box corner",
            SnapKind::BoxFaceCenter => "box face",
            SnapKind::Circle => "circle",
            SnapKind::Point => "point",
        }
    }

    /// This kind's place on the ladder, lower winning: the order the
    /// variants are declared in.
    pub fn rank(self) -> (rank: u8)
        ensures
            rank == snap_rank(self),
    {
        match self {
            SnapKind::Vertex => 0,
            SnapKind::BoxCorner => 1,
            SnapKind::BoxFaceCenter => 2,
            SnapKind::Circle => 3,
            SnapKind::Point => 4,
        }
    }
}

/// The ladder: the first candidate that exists wins, and the point always
/// does.
pub open spec fn ladder<P, F>(
    vertex: Option<P>,
    boxed: Option<(SnapKind, P)>,
    circle: Option<(P, F)>,
    point: P,
) -> (SnapKind, P, Option<F>) {
    match vertex {
        Some(at) => (SnapKind::Vertex, at, None),
        None => match boxed {
            Some((kind, at)) => (kind, at, None),
            None => match circle {
                Some((center, fit)) => (SnapKind::Circle, center, Some(fit)),
                None => (SnapKind::Point, point, None),
            },
        },
    }
}

/// The priority ladder, as a pure function: a vertex, else a box target,
/// else a circle (given with its centre), else the hit point. A circle
/// snaps to its centre and is the only kind that carries its fit.
pub fn choose_snap<P, F>(
    vertex: Option<P>,
    boxed: Option<(SnapKind, P)>,
    circle: Option<(P, F)>,
    point: P,
) -> (chosen: (SnapKind, P, Option<F>))
    ensures
        chosen == ladder(vertex, boxed, circle, point),
{
    if let Some(at) = vertex {
        return (SnapKind::Vertex, at, None);
    }
    if let Some((kind, at)) = boxed {
        return (kind, at, None);
    }
    if let Some((center, fit)) = circle {
        return (SnapKind::Circle, center, Some(fit));
    }
    (SnapKind::Point, point, None)
}

} // verus!
