//! Remote-memory data movement as a message-passing capability.
//!
//! Processes register local memory with a manager, obtain lightweight
//! buffer capabilities, and move bytes into or out of peer-owned memory
//! through asynchronous, pollable transfer operations.  This crate holds
//! the verified core: the manager's region and peer-connection tables,
//! the buffer and queue-pair capability values, transfer issuance, and
//! the completion-polling state machine.  The native transport engine and
//! the actor mailbox substrate act at the edges and are driven by an
//! unverified shell that feeds their outcomes into the functions here.

use vstd::prelude::*;

pub mod completion;
pub mod errors;
pub mod rdma_components;
pub mod rdma_manager_actor;

verus! {

/// Whether this build offers remote-memory data movement at all.
pub fn rdma_supported() -> (r: bool)
    ensures
        r == true,
{
    true
}

} // verus!
