use crate::strings::owned;
use vstd::prelude::*;

verus! {

/// The kind of body picked in the interface: nothing yet, a plain rigid body,
/// or a ball.
#[derive(Debug, PartialEq, Eq, Structural, Clone, Copy)]
pub enum RigidBodySelection {
    Nothing,
    RigidBody,
    Ball,
}

impl RigidBodySelection {
    /// The name shown for the selection.
    pub open spec fn spec_display(self) -> Seq<char> {
        match self {
            RigidBodySelection::RigidBody => "RigidBody"@,
            RigidBodySelection::Ball => "Ball"@,
            RigidBodySelection::Nothing => "None"@,
        }
    }

    /// The name shown for the selection: `RigidBody`, `Ball` or `None` (for `Nothing`).
    pub fn to_string(&self) -> (s: String)
        ensures
            s@ == self.spec_display(),
    {
        match self {
            RigidBodySelection::RigidBody => owned("RigidBody"),
            RigidBodySelection::Ball => owned("Ball"),
            RigidBodySelection::Nothing => owned("None"),
        }
    }
}

} // verus!
