//! The errors of the library.

use vstd::prelude::*;

verus! {

/// What can go wrong. All of these are faults of wiring, not of data.
#[derive(Debug, Clone, Copy, PartialEq, Eq, Structural)]
pub enum EcsError {
    /// A component kind was used before it was registered.
    UnregisteredKind,
    /// The movement command was read before it was ever set.
    MissingResource,
    /// A moving entity has no frame to show for its direction, so no frame
    /// index can be valid for it.
    IndexInvariantViolation,
    /// A component was given to an entity that the world never created.
    NoSuchEntity,
    /// A position or the corner of a frame would leave the coordinates that
    /// an `i32` can hold.
    PositionOverflow,
    /// The world already holds as many entities as it can.
    WorldFull,
}

impl EcsError {
    /// The error in words.
    pub open spec fn description(self) -> Seq<char> {
        match self {
            EcsError::UnregisteredKind => "a component kind was used before it was registered"@,
            EcsError::MissingResource => "the movement command was read before it was set"@,
            EcsError::IndexInvariantViolation => "a moving entity has no frame for its direction"@,
            EcsError::NoSuchEntity => "a component was given to an entity that does not exist"@,
            EcsError::PositionOverflow => "a position left the range of its coordinates"@,
            EcsError::WorldFull => "the world holds as many entities as it can"@,
        }
    }

    /// The error in words, for the message that ends the program.
    pub fn describe(&self) -> (message: &'static str)
        ensures
            message@ == self.description(),
    {
        match self {
            EcsError::UnregisteredKind => "a component kind was used before it was registered",
            EcsError::MissingResource => "the movement command was read before it was set",
            EcsError::IndexInvariantViolation => "a moving entity has no frame for its direction",
            EcsError::NoSuchEntity => "a component was given to an entity that does not exist",
            EcsError::PositionOverflow => "a position left the range of its coordinates",
            EcsError::WorldFull => "the world holds as many entities as it can",
        }
    }
}

} // verus!
