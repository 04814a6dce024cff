//! Messages for the storage collaborator: an external key/value store
//! consumed through Get/Put/Delete requests keyed by opaque byte strings.
//! The core only builds these values; issuing them is the caller's job.

use vstd::prelude::*;
use crate::chain::ChainInfo;
use crate::errors::BlocksManagerError;
use crate::serial::{chain_info_to_bytes, spec_chain_info_bytes};

verus! {

/// The well-known key under which the chain head singleton is persisted.
pub open spec fn spec_chain_key() -> Seq<u8> {
    seq![99u8, 104u8, 97u8, 105u8, 110u8]
}

/// The chain-head key as bytes (the ASCII string "chain").
pub fn chain_key() -> (k: Vec<u8>)
    ensures
        k@ == spec_chain_key(),
{
    let mut k: Vec<u8> = Vec::new();
    k.push(99);
    k.push(104);
    k.push(97);
    k.push(105);
    k.push(110);
    proof {
        assert(k@ =~= spec_chain_key());
    }
    k
}

/// Message requesting the value stored under a key.
#[derive(Debug)]
pub struct Get {
    /// Requested key.
    pub key: Vec<u8>,
}

impl Get {
    /// Create a `Get` message for the given key.
    pub fn new(key: Vec<u8>) -> (r: Self)
        ensures
            r.key@ == key@,
    {
        Get { key }
    }
}

/// Message requesting that a key-value pair be inserted in the storage.
#[derive(Debug)]
pub struct Put {
    /// Key to be inserted.
    pub key: Vec<u8>,
    /// Value to be inserted.
    pub value: Vec<u8>,
}

impl Put {
    /// Create a `Put` message from raw bytes.
    pub fn new(key: Vec<u8>, value: Vec<u8>) -> (r: Self)
        ensures
            r.key@ == key@,
            r.value@ == value@,
    {
        Put { key, value }
    }

    /// Create a `Put` message by serializing a chain head.
    pub fn from_value(key: Vec<u8>, value: &ChainInfo) -> (r: Result<Self, BlocksManagerError>)
        ensures
            r matches Ok(put) && put.key@ == key@ && put.value@ == spec_chain_info_bytes(*value),
    {
        let bytes = chain_info_to_bytes(value);
        Ok(Put { key, value: bytes })
    }
}

/// Message requesting that a key-value pair be removed from the storage.
#[derive(Debug)]
pub struct Delete {
    /// Key to be deleted.
    pub key: Vec<u8>,
}

impl Delete {
    /// Create a `Delete` message.
    pub fn new(key: Vec<u8>) -> (r: Self)
        ensures
            r.key@ == key@,
    {
        Delete { key }
    }
}

} // verus!
