//! Actors of a world: the local player and others, told apart by id.
use vstd::prelude::*;

verus! {

/// Identifies an actor of a world.
#[derive(Clone, Copy, Debug, PartialEq, Eq, Structural)]
pub struct ActorId(pub usize);

} // verus!
