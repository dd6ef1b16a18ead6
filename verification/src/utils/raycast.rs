//! Outcomes of casting a ray through the voxel grid.
use vstd::prelude::*;

verus! {

/// Why a ray cast found no block.
#[derive(Debug, Clone, Copy, PartialEq, Eq, Structural)]
pub enum RayCastError {
    /// The ray has no direction.
    ZeroDirection,
    /// The ray left the searched range without hitting a block.
    NoCollision,
}

} // verus!
