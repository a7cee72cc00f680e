//! Safe synchronization primitives.
//!
//! Synchronization objects are collaborators layered on the scheduler's
//! wait primitive ([`crate::kernel::Kernel::begin_wait`] and
//! [`crate::kernel::Kernel::wake_up_task`]); their state lives outside
//! the scheduler core.

use vstd::prelude::*;

use crate::Id;

verus! {

/// A mutual-exclusion handle assigned at configuration time. The handle
/// only carries the object's identity; the object it names is built on
/// the scheduler's wait primitive.
#[derive(Debug, Clone, Copy, PartialEq, Eq, Structural)]
pub struct Mutex {
    /// The 1-based object identifier.
    pub id: Id,
}

impl Mutex {
    /// Construct a handle for the mutex with the given identifier.
    pub fn new(id: Id) -> (r: Mutex)
        ensures
            r.id == id,
    {
        Mutex { id }
    }
}

} // verus!
