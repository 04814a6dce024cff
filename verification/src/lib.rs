//! Block-management core of a blockchain node: a content-addressed block
//! index, an epoch-to-candidates map, a deterministic consolidation rule
//! that picks one canonical block per epoch, a chain-head tracker with a
//! storage persistence contract, and the inventory reconciliation used
//! during peer handshake.

pub mod chain;
pub mod consolidation;
pub mod errors;
pub mod hashing;
pub mod index;
pub mod inventory;
pub mod manager;
pub mod serial;
pub mod storage;

pub use errors::BlocksManagerError;
pub use index::BlockIndex;
pub use manager::{BlocksManager, ConsolidationOutcome, InvVectorsResult};
pub use storage::{Delete, Get, Put};
