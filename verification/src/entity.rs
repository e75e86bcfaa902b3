//! Opaque handles for the bodies of the physics world.

use vstd::prelude::*;

verus! {

/// Identifier of a body or collider. The library never looks inside a body:
/// it only compares handles, so a handle that outlives its body is harmless.
#[derive(Clone, Copy, Debug, PartialEq, Eq, Structural, Hash)]
pub struct EntityId(pub u64);

} // verus!
