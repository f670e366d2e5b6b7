//! Buffer and queue-pair capabilities, and transfer issuance.
//!
//! An `RdmaBuffer` is a plain value referencing an owner, a region id, an
//! address, a size, and an engine name; it carries no live native handle,
//! only identifiers that the owner re-resolves on every operation.  An
//! `RdmaQueuePair` is an ephemeral, per-request view over a long-lived
//! peer connection.  Issuing a transfer builds one descriptor and selects
//! the native primitive; the asynchronous native submission itself is
//! performed by the unverified shell, which feeds its outcome back into
//! [`RdmaQueuePair::submission_result`].

use vstd::prelude::*;

use crate::errors::RdmaError;

verus! {

/// The queue-pair state reported for every state query: ready to send.
/// No intermediate connection-negotiation states exist in this design.
pub const QP_STATE_READY: u32 = 2;

/// A serializable memory capability, passed by value across actor and
/// process boundaries.  Valid only while the owner is alive and has not
/// released the matching region id.
#[derive(Debug, Clone)]
pub struct RdmaBuffer {
    /// Identity of the owning manager, re-resolved on every operation.
    pub owner: String,
    /// Region id assigned by the owner; unique per owner, never reused.
    pub mr_id: usize,
    /// Local protection key; unused by this transport, always zero.
    pub lkey: u32,
    /// Remote protection key; unused by this transport, always zero.
    pub rkey: u32,
    /// Byte address of the registered span.
    pub addr: usize,
    /// Byte size of the registered span.
    pub size: usize,
    /// Name of the owner's transport engine.
    pub device_name: String,
}

/// Which native primitive a transfer invokes.  A pull from the remote
/// side maps to `Read`, a push to the remote side maps to `Write`; this
/// mapping is fixed here once for both call sites.
#[derive(Debug, Clone, Copy, PartialEq, Eq, Structural)]
pub enum TransferOpKind {
    /// Move bytes from the remote address into the local address.
    Read,
    /// Move bytes from the local address to the remote address.
    Write,
}

/// One transfer descriptor: local address, remote address, length.
#[derive(Debug, Clone, Copy, PartialEq, Eq, Structural)]
pub struct TransferDescriptor {
    pub local_addr: usize,
    pub remote_addr: usize,
    pub len: usize,
}

/// Everything the native asynchronous submission call needs: the
/// primitive to invoke, one descriptor, and the target engine name.
/// This design always submits exactly one descriptor per call.
#[derive(Debug, Clone)]
pub struct TransferPlan {
    pub op: TransferOpKind,
    pub desc: TransferDescriptor,
    pub remote_engine: String,
}

/// An ephemeral capability for issuing transfers against one peer:
/// the owner's engine handle and the target peer's engine name.  Not
/// persisted anywhere; reconstructed fresh on every request.
#[derive(Debug, Clone)]
pub struct RdmaQueuePair {
    /// The owner's native engine handle, carried as a plain integer and
    /// only ever reinterpreted by the process that issued it.
    pub hixl_handle: usize,
    /// Engine name of the target peer.
    pub remote_engine: String,
}

/// What serving a queue-pair request takes: either the peer is already
/// connected and the capability is ready, or the native connect call
/// must be made first, with a bounded timeout.
#[derive(Debug, Clone)]
pub enum QueuePairPlan {
    /// The capability, handed out without any native call.
    Ready(RdmaQueuePair),
    /// The peer is not yet connected: invoke the native connect call
    /// with this timeout, then report its outcome to the owner.
    MustConnect { timeout_ms: u64 },
}

/// Compatibility descriptor mirroring a verb-based connection setup
/// protocol; this design has no negotiation states, so it is a fixed
/// placeholder.
#[derive(Debug, Clone)]
pub struct RdmaQpInfo {
    pub qp_num: u32,
    pub lid: u16,
    pub gid: Option<Vec<u8>>,
    pub psn: u32,
}

/// Compatibility configuration naming the local transport engine.
#[derive(Debug, Clone)]
pub struct IbverbsConfig {
    pub device: String,
}

impl Default for IbverbsConfig {
    fn default() -> (d: Self)
        ensures
            d.device@ == Seq::<char>::empty(),
    {
        IbverbsConfig { device: String::new() }
    }
}

/// Completion-queue selector kept for protocol compatibility; this
/// transport polls per-request and never distinguishes the two.
#[derive(Debug, Clone, Copy, PartialEq, Eq, Structural)]
pub enum PollTarget {
    Send,
    Recv,
}

impl RdmaQueuePair {
    /// The descriptor a transfer of `op` between `local` and `remote`
    /// submits: local and remote addresses, and a length equal to the
    /// local buffer's size.
    pub open spec fn spec_transfer_plan(
        self,
        local: RdmaBuffer,
        remote: RdmaBuffer,
        op: TransferOpKind,
    ) -> TransferPlan {
        TransferPlan {
            op,
            desc: TransferDescriptor {
                local_addr: local.addr,
                remote_addr: remote.addr,
                len: local.size,
            },
            remote_engine: self.remote_engine,
        }
    }

    /// Pull: read the remote buffer's bytes into local memory, through
    /// the native read primitive.
    pub fn get(&self, local: &RdmaBuffer, remote: &RdmaBuffer) -> (p: TransferPlan)
        ensures
            p == self.spec_transfer_plan(*local, *remote, TransferOpKind::Read),
    {
        self.transfer(local, remote, TransferOpKind::Read)
    }

    /// Push: write the local buffer's bytes to the remote side, through
    /// the native write primitive.
    pub fn put(&self, local: &RdmaBuffer, remote: &RdmaBuffer) -> (p: TransferPlan)
        ensures
            p == self.spec_transfer_plan(*local, *remote, TransferOpKind::Write),
    {
        self.transfer(local, remote, TransferOpKind::Write)
    }

    /// Build the single-descriptor submission for one transfer.
    pub fn transfer(&self, local: &RdmaBuffer, remote: &RdmaBuffer, op: TransferOpKind) -> (p:
        TransferPlan)
        ensures
            p == self.spec_transfer_plan(*local, *remote, op),
    {
        TransferPlan {
            op,
            desc: TransferDescriptor {
                local_addr: local.addr,
                remote_addr: remote.addr,
                len: local.size,
            },
            remote_engine: self.remote_engine.clone(),
        }
    }

    /// Convert the native submission outcome into the request identifier
    /// list handed to the completion waiter: one identifier per
    /// submission on success, a `TransferIssueError` carrying the native
    /// diagnostic on failure.
    pub fn submission_result(&self, outcome: Result<u64, String>) -> (r: Result<
        Vec<u64>,
        RdmaError,
    >)
        ensures
            match outcome {
                Ok(req) => r matches Ok(ids) && ids@ == seq![req],
                Err(msg) => r matches Err(e) && (e matches RdmaError::TransferIssueError {
                    detail,
                } && detail@ == msg@),
            },
    {
        match outcome {
            Ok(req) => {
                let ids: Vec<u64> = vec![req];
                Ok(ids)
            },
            Err(msg) => Err(RdmaError::TransferIssueError { detail: msg }),
        }
    }

    /// Classify one native status-query answer for a request identifier:
    /// code 0 means completed, code 1 means still pending, and any other
    /// code is surfaced as a `TransferStatusError` with the native
    /// diagnostic.
    pub fn check_status(&self, code: i32, detail: String) -> (r: Result<bool, RdmaError>)
        ensures
            code == 0 ==> r == Ok::<bool, RdmaError>(true),
            code == 1 ==> r == Ok::<bool, RdmaError>(false),
            code != 0 && code != 1 ==> (r matches Err(e)
                && e matches RdmaError::TransferStatusError { code: c, detail: d } && c == code
                && d@ == detail@),
    {
        if code == 0 {
            Ok(true)
        } else if code == 1 {
            Ok(false)
        } else {
            Err(RdmaError::TransferStatusError { code, detail })
        }
    }

    /// Compatibility shim: the connection was already established by the
    /// owner when this queue pair was handed out, so there is nothing to
    /// do and the call always succeeds.
    pub fn connect(&mut self, _info: &RdmaQpInfo) -> (r: Result<(), RdmaError>)
        ensures
            r == Ok::<(), RdmaError>(()),
            *final(self) == *old(self),
    {
        Ok(())
    }

    /// Compatibility shim: a fixed placeholder connection descriptor,
    /// since no endpoint negotiation happens in this design.
    pub fn get_qp_info(&mut self) -> (r: Result<RdmaQpInfo, RdmaError>)
        ensures
            r matches Ok(info) && info.qp_num == 0 && info.lid == 0 && info.gid is None
                && info.psn == 0,
            *final(self) == *old(self),
    {
        Ok(RdmaQpInfo { qp_num: 0, lid: 0, gid: None, psn: 0 })
    }

    /// Compatibility shim: always reports the single "ready" state.
    pub fn state(&mut self) -> (r: Result<u32, RdmaError>)
        ensures
            r == Ok::<u32, RdmaError>(QP_STATE_READY),
            *final(self) == *old(self),
    {
        Ok(QP_STATE_READY)
    }
}

} // verus!
