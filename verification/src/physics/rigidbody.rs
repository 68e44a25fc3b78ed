use vstd::prelude::*;

verus! {

/// The shape of a rigid body.
#[derive(Clone, Copy, Debug, PartialEq, Eq, Structural)]
pub enum RigidBodyKind {
    Ball,
    Cuboid,
    Cylinder,
}

impl RigidBodyKind {
    /// The shape's display name: `Ball`, `Cube` for a cuboid, `Cylinder`.
    pub open spec fn spec_type_name(self) -> Seq<char> {
        match self {
            RigidBodyKind::Ball => "Ball"@,
            RigidBodyKind::Cuboid => "Cube"@,
            RigidBodyKind::Cylinder => "Cylinder"@,
        }
    }

    /// The shape's display name.
    pub fn type_to_string(&self) -> (s: &'static str)
        ensures
            s@ == self.spec_type_name(),
    {
        match self {
            RigidBodyKind::Ball => "Ball",
            RigidBodyKind::Cuboid => "Cube",
            RigidBodyKind::Cylinder => "Cylinder",
        }
    }
}

/// The triangles of the unit cube, two per face, as indices into its eight
/// corners: back, front, top, bottom, left and right faces in turn.
pub open spec fn spec_cube_indices() -> Seq<u16> {
    seq![
        0u16, 1, 2, 2, 4, 1,
        3, 6, 5, 5, 7, 6,
        0, 1, 3, 3, 6, 1,
        2, 4, 5, 5, 7, 4,
        1, 6, 4, 4, 7, 6,
        0, 3, 2, 2, 5, 3,
    ]
}

/// The cube's triangle indices.
pub fn cube_indices() -> (v: Vec<u16>)
    ensures
        v@ == spec_cube_indices(),
{
    vec![
        0, 1, 2, 2, 4, 1,
        3, 6, 5, 5, 7, 6,
        0, 1, 3, 3, 6, 1,
        2, 4, 5, 5, 7, 4,
        1, 6, 4, 4, 7, 6,
        0, 3, 2, 2, 5, 3,
    ]
}

/// The cube's index list describes twelve triangles and every index names
/// one of its eight corners.
pub proof fn lemma_cube_indices_in_range()
    ensures
        spec_cube_indices().len() == 36,
        forall|i: int| 0 <= i < 36 ==> #[trigger] spec_cube_indices()[i] < 8,
{
}

} // verus!
