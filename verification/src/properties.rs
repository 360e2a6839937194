//! The properties panel's three choosers: the inertial mode, the collision
//! policy and the primitive kind, by name and in the order they are offered.

use vstd::prelude::*;

verus! {

/// The Inertial block's mode: the three inertial specifications by name,
/// without their payloads.
#[derive(Debug, Clone, Copy, PartialEq, Eq, Structural)]
pub enum InertialMode {
    Computed,
    Override,
    Hybrid,
}

/// The Collision block's policy, by name. `Meshes` (a URDF import) is shown
/// when present but not offered.
#[derive(Debug, Clone, Copy, PartialEq, Eq, Structural)]
pub enum CollisionMode {
    /// No collision geometry.
    Nothing,
    SameAsVisual,
    ConvexHull,
    Primitives,
    Meshes,
    Decomposition,
}

/// The four primitive kinds, for the add buttons and the fit.
#[derive(Debug, Clone, Copy, PartialEq, Eq, Structural)]
pub enum PrimitiveKind {
    Box,
    Cylinder,
    Sphere,
    Capsule,
}

/// An inertial mode's name in the combo.
pub open spec fn inertial_label(mode: InertialMode) -> Seq<char> {
    match mode {
        InertialMode::Computed => "Computed"@,
        InertialMode::Override => "Override"@,
        InertialMode::Hybrid => "Hybrid"@,
    }
}

/// A collision policy's name in the combo.
pub open spec fn collision_label(mode: CollisionMode) -> Seq<char> {
    match mode {
        CollisionMode::Nothing => "None"@,
        CollisionMode::SameAsVisual => "Same as visual"@,
        CollisionMode::ConvexHull => "Convex hull"@,
        CollisionMode::Primitives => "Primitives"@,
        CollisionMode::Meshes => "Meshes (imported)"@,
        CollisionMode::Decomposition => "Convex decomposition"@,
    }
}

/// A primitive kind's name on its button.
pub open spec fn primitive_label(kind: PrimitiveKind) -> Seq<char> {
    match kind {
        PrimitiveKind::Box => "Box"@,
        PrimitiveKind::Cylinder => "Cylinder"@,
        PrimitiveKind::Sphere => "Sphere"@,
        PrimitiveKind::Capsule => "Capsule"@,
    }
}

impl InertialMode {
    /// The combo's order.
    pub const ALL: [InertialMode; 3] = [InertialMode::Computed, InertialMode::Override, InertialMode::Hybrid];

    /// The name in the combo.
    pub fn label(self) -> (label: &'static str)
        ensures
            label@ == inertial_label(self),
    {
        match self {
            InertialMode::Computed => "Computed",
            InertialMode::Override => "Override",
            InertialMode::Hybrid => "Hybrid",
        }
    }
}

impl CollisionMode {
    /// The policies a user picks by hand, in the combo's order: `Meshes`
    /// is not among them.
    pub const OFFERED: [CollisionMode; 5] = [
        CollisionMode::Nothing,
        CollisionMode::SameAsVisual,
        CollisionMode::ConvexHull,
        CollisionMode::Decomposition,
        CollisionMode::Primitives,
    ];

    /// The name in the combo.
    pub fn label(self) -> (label: &'static str)
        ensures
            label@ == collision_label(self),
    {
        match self {
            CollisionMode::Nothing => "None",
            CollisionMode::SameAsVisual => "Same as visual",
            CollisionMode::ConvexHull => "Convex hull",
            CollisionMode::Primitives => "Primitives",
            CollisionMode::Meshes => "Meshes (imported)",
            CollisionMode::Decomposition => "Convex decomposition",
        }
    }

    /// Whether a user can pick this policy by hand.
    pub fn offered(self) -> (offered: bool)
        ensures
            offered == CollisionMode::OFFERED@.contains(self),
    {
        proof {
            let o = CollisionMode::OFFERED@;
            assert(o[0] == CollisionMode::Nothing);
            assert(o[1] == CollisionMode::SameAsVisual);
            assert(o[2] == CollisionMode::ConvexHull);
            assert(o[3] == CollisionMode::Decomposition);
            assert(o[4] == CollisionMode::Primitives);
            if self == CollisionMode::Meshes {
                assert(!o.contains(self)) by {
                    if o.contains(self) {
                        let i = choose|i: int| 0 <= i < o.len() && o[i] == self;
                    }
                }
            }
        }
        self != CollisionMode::Meshes
    }
}

impl PrimitiveKind {
    /// The add buttons' order.
    pub const ALL: [PrimitiveKind; 4] = [
        PrimitiveKind::Box,
        PrimitiveKind::Cylinder,
        PrimitiveKind::Sphere,
        PrimitiveKind::Capsule,
    ];

    /// The name on its button.
    pub fn label(self) -> (label: &'static str)
        ensures
            label@ == primitive_label(self),
    {
        match self {
            PrimitiveKind::Box => "Box",
            PrimitiveKind::Cylinder => "Cylinder",
            PrimitiveKind::Sphere => "Sphere",
            PrimitiveKind::Capsule => "Capsule",
        }
    }
}

} // verus!
