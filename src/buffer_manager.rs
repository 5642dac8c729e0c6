use vstd::prelude::*;

use crate::node::{AtomicId, Id};

verus! {

/// Hands out node identifiers in increasing order.
#[derive(Debug)]
pub struct BufferManager {
    next_node_id: AtomicId,
}

impl BufferManager {
    /// The identifier that the next allocation returns.
    pub closed spec fn next_node_id(&self) -> u64 {
        self.next_node_id.value
    }

    pub fn new(first_free_node_id: Id) -> (r: BufferManager)
        requires
            first_free_node_id.0 != 0,
        ensures
            r.next_node_id() == first_free_node_id.0,
    {
        BufferManager { next_node_id: AtomicId::new(first_free_node_id) }
    }

    /// Whether an identifier can be allocated without wrapping.
    pub fn can_allocate(&self) -> (r: bool)
        ensures
            r == (self.next_node_id() < u64::MAX),
    {
        self.next_node_id.value < u64::MAX
    }

    /// Returns a fresh node identifier, one above the previous one.
    pub fn allocate_new_node_id(&mut self) -> (r: Id)
        requires
            old(self).next_node_id() < u64::MAX,
        ensures
            r.0 == old(self).next_node_id(),
            final(self).next_node_id() == old(self).next_node_id() + 1,
    {
        self.next_node_id.get_and_advance()
    }
}

} // verus!
