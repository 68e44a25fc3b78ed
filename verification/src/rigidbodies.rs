//! The body selection offered by the object picker, with its name, its
//! number of variants and its parsing from a name.

use crate::strings::{owned, str_equals};
use vstd::prelude::*;

verus! {

/// The kind of body picked in the object picker: nothing yet (with a slot
/// number), a plain rigid body, or a ball.
#[derive(Debug, PartialEq, Eq, Structural, Clone, Copy)]
pub enum RigidBodySelection {
    Nothing(usize),
    RigidBody,
    Ball,
}

/// A name that names no variant of `RigidBodySelection`.
#[derive(Debug, PartialEq, Eq, Structural, Clone, Copy)]
pub enum ParseSelectionError {
    VariantNotFound,
}

impl RigidBodySelection {
    /// The number of variants.
    pub const COUNT: usize = 3;

    /// The variant's name: `None` for `Nothing` whatever its slot,
    /// `RigidBody`, `Ball`.
    pub open spec fn spec_display(self) -> Seq<char> {
        match self {
            RigidBodySelection::Nothing(_) => "None"@,
            RigidBodySelection::RigidBody => "RigidBody"@,
            RigidBodySelection::Ball => "Ball"@,
        }
    }

    /// What `from_name` gives for `name`: the variant of that name, with
    /// slot 0 for `None`, or `VariantNotFound`.
    pub open spec fn spec_from_name(name: Seq<char>) -> Result<RigidBodySelection, ParseSelectionError> {
        if name == "None"@ {
            Ok(RigidBodySelection::Nothing(0))
        } else if name == "RigidBody"@ {
            Ok(RigidBodySelection::RigidBody)
        } else if name == "Ball"@ {
            Ok(RigidBodySelection::Ball)
        } else {
            Err(ParseSelectionError::VariantNotFound)
        }
    }

    /// The variant's name.
    pub fn to_string(&self) -> (s: String)
        ensures
            s@ == self.spec_display(),
    {
        match self {
            RigidBodySelection::Nothing(_) => owned("None"),
            RigidBodySelection::RigidBody => owned("RigidBody"),
            RigidBodySelection::Ball => owned("Ball"),
        }
    }

    /// The variant named `name`, matched exactly (case included); `Nothing`
    /// comes back with slot 0.
    pub fn from_name(name: &str) -> (r: Result<RigidBodySelection, ParseSelectionError>)
        ensures
            r == Self::spec_from_name(name@),
    {
        if str_equals(name, "None") {
            Ok(RigidBodySelection::Nothing(0))
        } else if str_equals(name, "RigidBody") {
            Ok(RigidBodySelection::RigidBody)
        } else if str_equals(name, "Ball") {
            Ok(RigidBodySelection::Ball)
        } else {
            Err(ParseSelectionError::VariantNotFound)
        }
    }
}

impl std::str::FromStr for RigidBodySelection {
    type Err = ParseSelectionError;

    /// The variant named `s`, as `from_name` reads it.
    fn from_str(s: &str) -> (r: Result<RigidBodySelection, ParseSelectionError>)
        ensures
            r == RigidBodySelection::spec_from_name(s@),
    {
        RigidBodySelection::from_name(s)
    }
}

/// Reading back a selection's name gives the selection again, except that
/// `Nothing` always comes back with slot 0.
pub proof fn lemma_name_round_trip(sel: RigidBodySelection)
    ensures
        RigidBodySelection::spec_from_name(sel.spec_display()) == Ok::<
            RigidBodySelection,
            ParseSelectionError,
        >(
            match sel {
                RigidBodySelection::Nothing(_) => RigidBodySelection::Nothing(0),
                _ => sel,
            },
        ),
{
    reveal_strlit("None");
    reveal_strlit("RigidBody");
    reveal_strlit("Ball");
    assert("RigidBody"@.len() != "None"@.len());
    assert("Ball"@[0] != "None"@[0]);
    assert("Ball"@.len() != "RigidBody"@.len());
}

} // verus!
