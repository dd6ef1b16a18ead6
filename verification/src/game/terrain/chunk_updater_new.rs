//! What a finished chunk job asks of the chunk map.
use vstd::prelude::*;

verus! {

#[derive(Debug, Clone, Copy, PartialEq, Eq, Structural)]
pub enum ChunkOperation {
    Creation,
    Remotion,
    Update,
}

} // verus!
