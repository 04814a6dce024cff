//! The error taxonomy of the block-management core. All of these are
//! expected, non-fatal conditions reported to the immediate caller.

use vstd::prelude::*;

verus! {

/// Possible errors when interacting with the block-management facade.
#[derive(Clone, Copy, Debug, PartialEq, Eq, Structural)]
pub enum BlocksManagerError {
    /// A block being processed was already known to this node.
    BlockAlreadyExists,
    /// A block with the requested hash does not exist.
    BlockDoesNotExist,
    /// The storage collaborator failed, was unreachable, or returned
    /// bytes that do not decode to a chain head.
    StorageError,
}

} // verus!
