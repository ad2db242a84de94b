//! Indexing of objects in a scene.
//!
//! A scene stores its objects grouped by concrete type: one storage per
//! type, and within each storage the objects in insertion order.  A
//! [`WorldIndex`] names one object of the scene by the pair of positions.

use vstd::prelude::*;

verus! {

/// Position of one object in a scene: which per-type storage it lives in,
/// and where it sits inside that storage.
#[derive(Debug, Clone, Copy, PartialEq, Eq, Structural)]
pub struct WorldIndex {
    pub type_index: usize,
    pub object_index: usize,
}

impl WorldIndex {
    /// Pairs the two positions up.
    pub fn new(type_index: usize, object_index: usize) -> (r: WorldIndex)
        ensures
            r.type_index == type_index,
            r.object_index == object_index,
    {
        WorldIndex { type_index, object_index }
    }
}

} // verus!
