use vstd::prelude::*;

verus! {

/// What a body collided with: the world's boundary or another object.
#[derive(Clone, Debug)]
pub enum CollisionObjectType {
    World,
    Object,
}

/// How the participants of two collisions compare: each flag says whether
/// one participant of the first equals one of the second (`primary_primary`
/// compares the two primaries, `primary_secondary` the first's primary with
/// the second's secondary, and so on).
#[derive(Clone, Copy, Debug, PartialEq, Eq, Structural)]
pub struct ParticipantMatches {
    pub primary_primary: bool,
    pub primary_secondary: bool,
    pub secondary_primary: bool,
    pub secondary_secondary: bool,
}

/// Two collisions with both participants present count as the same when
/// they involve the same pair, in either order: the flags read
/// `true, false, false, true` (same primaries, same secondaries) or
/// `false, true, true, false` (each primary is the other's secondary), and
/// in no other case.
pub open spec fn spec_same_collision(m: ParticipantMatches) -> bool {
    (m.primary_primary && !m.primary_secondary && !m.secondary_primary && m.secondary_secondary)
        || (!m.primary_primary && m.primary_secondary && m.secondary_primary
        && !m.secondary_secondary)
}

/// The flags of the two collisions compared the other way round: the
/// first's primary against the second's secondary becomes the second's
/// secondary against the first's primary, and so on.
pub open spec fn swapped(m: ParticipantMatches) -> ParticipantMatches {
    ParticipantMatches {
        primary_primary: m.primary_primary,
        primary_secondary: m.secondary_primary,
        secondary_primary: m.primary_secondary,
        secondary_secondary: m.secondary_secondary,
    }
}

/// Whether two collisions whose participants are all present count as the
/// same, by how their participants compare.
pub fn same_collision(m: ParticipantMatches) -> (r: bool)
    ensures
        r == spec_same_collision(m),
{
    match (m.primary_primary, m.primary_secondary, m.secondary_primary, m.secondary_secondary) {
        (true, false, false, true) | (false, true, true, false) => true,
        _ => false,
    }
}

/// The comparison is symmetric: comparing the collisions the other way
/// round gives the same answer.
pub proof fn lemma_same_collision_symmetric(m: ParticipantMatches)
    ensures
        spec_same_collision(swapped(m)) == spec_same_collision(m),
{
}

/// A collision between two distinct participants is the same as itself:
/// compared with itself, its primaries and its secondaries match, and its
/// primary does not match its secondary.
pub proof fn lemma_same_collision_reflexive(distinct: bool)
    ensures
        spec_same_collision(
            ParticipantMatches {
                primary_primary: true,
                primary_secondary: !distinct,
                secondary_primary: !distinct,
                secondary_secondary: true,
            },
        ) == distinct,
{
}

/// Two collisions count as the same only when both participants of one are
/// the participants of the other: the primaries match and the secondaries
/// match, or each primary matches the other's secondary. Sharing one body
/// is not enough. And when they match in exactly one of those two ways,
/// they count as the same.
pub proof fn lemma_same_collision_needs_both_participants(m: ParticipantMatches)
    ensures
        spec_same_collision(m) ==> (m.primary_primary && m.secondary_secondary) || (
        m.primary_secondary && m.secondary_primary),
        !m.secondary_primary && !m.secondary_secondary ==> !spec_same_collision(m),
        !m.primary_primary && !m.primary_secondary ==> !spec_same_collision(m),
        (m.primary_primary && m.secondary_secondary && !m.primary_secondary
            && !m.secondary_primary) ==> spec_same_collision(m),
        (m.primary_secondary && m.secondary_primary && !m.primary_primary
            && !m.secondary_secondary) ==> spec_same_collision(m),
{
}

} // verus!
