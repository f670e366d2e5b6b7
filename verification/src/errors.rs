//! Error taxonomy of the remote-memory capability layer.
//!
//! Every native-layer failure is converted into one of these kinds,
//! carrying the native diagnostic text.  Errors propagate as reply
//! values of the originating operation and never terminate the owner:
//! the verified functions of this crate do not panic.

use vstd::prelude::*;

verus! {

#[derive(Debug, Clone, PartialEq)]
pub enum RdmaError {
    /// Native memory registration failed; no table mutation took place
    /// and the region id counter did not advance.
    RegistrationError { detail: String },
    /// Native connect to a not-yet-connected peer failed; the peer
    /// connection table is unchanged.
    ConnectionError { peer: String, detail: String },
    /// Native transfer submission failed; no request identifiers were
    /// produced.
    TransferIssueError { detail: String },
    /// A native status query reported an unrecognized code; the wait
    /// aborts immediately with this error.
    TransferStatusError { code: i32, detail: String },
    /// The completion deadline elapsed with outstanding requests; the
    /// native requests are left unresolved.
    TimeoutError,
}

} // verus!
