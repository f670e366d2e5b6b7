//! The manager: owner of one transport engine, its memory registration
//! table and its peer connection table.
//!
//! The owner processes one message at a time from a sequential mailbox,
//! so all table mutations happen in a single-threaded context; the
//! functions here are those serialized state transitions.  The native
//! engine calls (create, initialize, register, deregister, connect,
//! finalize, destroy) happen at the edge, in the unverified shell that
//! owns the mailbox: it performs each native call and feeds the outcome
//! into the matching function here, which decides and records.
//!
//! A ghost event model ([`ManagerView`], [`apply_events`]) mirrors the
//! transitions stated in the contracts; the lemmas at the end prove the
//! table laws — strictly increasing region ids and idempotent peer
//! connection — over every sequence of operations.

use std::collections::HashMap;

use vstd::prelude::*;

use crate::errors::RdmaError;
use crate::rdma_components::QP_STATE_READY;
use crate::rdma_components::QueuePairPlan;
use crate::rdma_components::RdmaBuffer;
use crate::rdma_components::RdmaQpInfo;
use crate::rdma_components::RdmaQueuePair;

verus! {

broadcast use vstd::std_specs::hash::group_hash_axioms;

/// Bounded timeout handed to the native connect call, in milliseconds.
pub const CONNECT_TIMEOUT_MS: u64 = 2000;

/// The set of engine names a list of peers holds.
pub open spec fn connected_set(peers: Seq<String>) -> Set<Seq<char>> {
    Set::new(|p: Seq<char>| exists|i: int| 0 <= i < peers.len() && peers[i]@ == p)
}

/// The manager's abstract state: the engine handle, the region table
/// (region id to native registration handle), the id counter, the local
/// engine name, and the set of connected peer engine names.
#[verifier::ext_equal]
pub ghost struct ManagerView {
    pub engine_handle: usize,
    pub regions: Map<usize, usize>,
    pub next_region_id: usize,
    pub local_engine: Seq<char>,
    pub connected: Set<Seq<char>>,
}

/// Registering memory records the fresh native handle under the next
/// region id and advances the counter.
pub open spec fn register_step(v: ManagerView, mem_handle: usize) -> ManagerView {
    ManagerView {
        regions: v.regions.insert(v.next_region_id, mem_handle),
        next_region_id: (v.next_region_id + 1) as usize,
        ..v
    }
}

/// The region id a registration in state `v` hands out.
pub open spec fn issued_region_id(v: ManagerView) -> usize {
    v.next_region_id
}

/// Releasing a region removes its table entry; the id counter never
/// moves back, so the id is never reused.
pub open spec fn release_step(v: ManagerView, region_id: usize) -> ManagerView {
    ManagerView { regions: v.regions.remove(region_id), ..v }
}

/// A successful connect marks the peer connected.
pub open spec fn connect_step(v: ManagerView, peer: Seq<char>) -> ManagerView {
    ManagerView { connected: v.connected.insert(peer), ..v }
}

/// The manager actor's state.  All mutations go through the methods
/// below, one message at a time.
#[derive(Debug)]
pub struct RdmaManagerActor {
    /// Native engine handle, held as a plain integer; nonzero for a
    /// manager that entered service.
    hixl_handle: usize,
    /// Region id to native registration handle.
    mr_map: HashMap<usize, usize>,
    /// The next region id to hand out; strictly increasing from 1.
    next_mr_id: usize,
    /// Name of the owned transport engine.
    local_engine: String,
    /// Engine names of the peers connected so far, each at most once.
    connected_peers: Vec<String>,
}

impl View for RdmaManagerActor {
    type V = ManagerView;

    closed spec fn view(&self) -> ManagerView {
        ManagerView {
            engine_handle: self.hixl_handle,
            regions: self.mr_map@,
            next_region_id: self.next_mr_id,
            local_engine: self.local_engine@,
            connected: connected_set(self.connected_peers@),
        }
    }
}

impl RdmaManagerActor {
    /// Well-formedness: the engine is live, region ids start at 1 and
    /// every recorded id lies below the counter, and no peer is listed
    /// twice.
    pub closed spec fn inv(&self) -> bool {
        &&& self.hixl_handle != 0
        &&& 1 <= self.next_mr_id
        &&& forall|id: usize| self.mr_map@.contains_key(id) ==> id < self.next_mr_id
        &&& forall|i: int, j: int|
            0 <= i < j < self.connected_peers@.len() ==> self.connected_peers@[i]@
                != self.connected_peers@[j]@
    }

    /// A manager entering service: the engine was created and
    /// initialized (a nonzero handle), the tables are empty, and the
    /// region id counter starts at 1.  Initialization failure is fatal
    /// and constructs no manager at all.
    pub fn new(hixl_handle: usize, local_engine: String) -> (a: Self)
        requires
            hixl_handle != 0,
        ensures
            a.inv(),
            a@.engine_handle == hixl_handle,
            a@.regions == Map::<usize, usize>::empty(),
            a@.next_region_id == 1,
            a@.local_engine == local_engine@,
            a@.connected == Set::<Seq<char>>::empty(),
    {
        let a = RdmaManagerActor {
            hixl_handle,
            mr_map: HashMap::new(),
            next_mr_id: 1,
            local_engine,
            connected_peers: Vec::new(),
        };
        proof {
            assert(a@.regions =~= Map::<usize, usize>::empty());
            assert(a@.connected =~= Set::<Seq<char>>::empty());
        }
        a
    }

    /// Serve a registration request for `size` bytes at `addr`.  The
    /// shell has already made the native registration call;
    /// `registration` is its outcome, a native handle or a diagnostic.
    /// On success the region enters the table under the next region id
    /// and a buffer capability naming this owner comes back; on failure
    /// the table and the id counter stay exactly as they were and the
    /// caller receives a `RegistrationError`.
    pub fn request_buffer(
        &mut self,
        owner: String,
        addr: usize,
        size: usize,
        registration: Result<usize, String>,
    ) -> (r: Result<RdmaBuffer, RdmaError>)
        requires
            old(self).inv(),
            old(self)@.next_region_id < usize::MAX,
        ensures
            final(self).inv(),
            registration matches Ok(mem_handle) ==> {
                &&& final(self)@ == register_step(old(self)@, mem_handle)
                &&& r matches Ok(b) && b.mr_id == issued_region_id(old(self)@) && b.owner@
                    == owner@ && b.addr == addr && b.size == size && b.lkey == 0 && b.rkey == 0
                    && b.device_name@ == old(self)@.local_engine
            },
            registration matches Err(msg) ==> {
                &&& final(self)@ == old(self)@
                &&& r matches Err(e) && e matches RdmaError::RegistrationError { detail }
                    && detail@ == msg@
            },
    {
        match registration {
            Ok(mem_handle) => {
                let mr_id = self.next_mr_id;
                self.next_mr_id = self.next_mr_id + 1;
                self.mr_map.insert(mr_id, mem_handle);
                let b = RdmaBuffer {
                    owner,
                    mr_id,
                    lkey: 0,
                    rkey: 0,
                    addr,
                    size,
                    device_name: self.local_engine.clone(),
                };
                proof {
                    assert(final(self)@ =~= register_step(old(self)@, mem_handle));
                }
                Ok(b)
            },
            Err(msg) => Err(RdmaError::RegistrationError { detail: msg }),
        }
    }

    /// Release a buffer's region.  If its id is present the entry
    /// leaves the table and the native registration handle comes back
    /// for the shell to deregister; an id never issued, already
    /// released, or foreign is a no-op success that leaves the table
    /// untouched — release is idempotent and this call never fails.
    pub fn release_buffer(&mut self, buffer: &RdmaBuffer) -> (released: Option<usize>)
        requires
            old(self).inv(),
        ensures
            final(self).inv(),
            old(self)@.regions.contains_key(buffer.mr_id) ==> {
                &&& released == Some(old(self)@.regions[buffer.mr_id])
                &&& final(self)@ == release_step(old(self)@, buffer.mr_id)
            },
            !old(self)@.regions.contains_key(buffer.mr_id) ==> {
                &&& released is None
                &&& final(self)@ == old(self)@
            },
    {
        let removed = self.mr_map.remove(&buffer.mr_id);
        proof {
            if old(self)@.regions.contains_key(buffer.mr_id) {
                assert(final(self)@ =~= release_step(old(self)@, buffer.mr_id));
            } else {
                assert(old(self)@.regions.remove(buffer.mr_id) =~= old(self)@.regions);
                assert(final(self)@ =~= old(self)@);
            }
        }
        removed
    }

    /// Whether a queue pair against `other_device` can be handed out at
    /// once, or the peer must be connected first.  The connection, once
    /// established, is long-lived: a `Ready` plan invokes no native
    /// call at all, which makes repeated requests idempotent.
    pub fn request_queue_pair(&self, other_device: &String) -> (plan: QueuePairPlan)
        requires
            self.inv(),
        ensures
            self@.connected.contains(other_device@) ==> (plan matches QueuePairPlan::Ready(qp)
                && qp.hixl_handle == self@.engine_handle && qp.remote_engine@ == other_device@),
            !self@.connected.contains(other_device@) ==> (plan
                matches QueuePairPlan::MustConnect { timeout_ms } && timeout_ms
                == CONNECT_TIMEOUT_MS),
    {
        if self.is_connected(other_device) {
            QueuePairPlan::Ready(
                RdmaQueuePair {
                    hixl_handle: self.hixl_handle,
                    remote_engine: other_device.clone(),
                },
            )
        } else {
            QueuePairPlan::MustConnect { timeout_ms: CONNECT_TIMEOUT_MS }
        }
    }

    /// Record the outcome of the native connect call a `MustConnect`
    /// plan demanded.  Success marks the peer connected — from then on
    /// every queue-pair request for it is served without another
    /// connect — and hands out the capability; failure surfaces a
    /// `ConnectionError` naming the peer and leaves the connection
    /// table unchanged, so a later request will try again.
    pub fn complete_connect(&mut self, other_device: &String, outcome: Result<(), String>) -> (r:
        Result<RdmaQueuePair, RdmaError>)
        requires
            old(self).inv(),
            !old(self)@.connected.contains(other_device@),
        ensures
            final(self).inv(),
            outcome is Ok ==> {
                &&& final(self)@ == connect_step(old(self)@, other_device@)
                &&& r matches Ok(qp) && qp.hixl_handle == old(self)@.engine_handle
                    && qp.remote_engine@ == other_device@
            },
            outcome matches Err(msg) ==> {
                &&& final(self)@ == old(self)@
                &&& r matches Err(e) && e matches RdmaError::ConnectionError { peer, detail }
                    && peer@ == other_device@ && detail@ == msg@
            },
    {
        match outcome {
            Ok(_) => {
                let peer = other_device.clone();
                self.connected_peers.push(peer);
                proof {
                    lemma_connected_set_push(old(self).connected_peers@, *other_device);
                    assert(final(self)@ =~= connect_step(old(self)@, other_device@));
                }
                Ok(
                    RdmaQueuePair {
                        hixl_handle: self.hixl_handle,
                        remote_engine: other_device.clone(),
                    },
                )
            },
            Err(msg) => Err(
                RdmaError::ConnectionError { peer: other_device.clone(), detail: msg },
            ),
        }
    }

    /// Whether `other_device` is already marked connected.
    pub fn is_connected(&self, other_device: &String) -> (b: bool)
        ensures
            b == self@.connected.contains(other_device@),
    {
        let n = self.connected_peers.len();
        let mut i: usize = 0;
        while i < n
            invariant
                n == self.connected_peers@.len(),
                i <= n,
                forall|j: int| 0 <= j < i ==> self.connected_peers@[j]@ != other_device@,
            decreases n - i,
        {
            if self.connected_peers[i] == *other_device {
                proof {
                    assert(self.connected_peers@[i as int]@ == other_device@);
                }
                return true;
            }
            i += 1;
        }
        proof {
            if self@.connected.contains(other_device@) {
                let k = choose|k: int|
                    0 <= k < self.connected_peers@.len() && self.connected_peers@[k]@
                        == other_device@;
                assert(false);
            }
        }
        false
    }

    /// How many regions the table currently holds.
    pub fn region_count(&self) -> (n: usize)
        ensures
            n == self@.regions.len(),
    {
        self.mr_map.len()
    }

    /// The native engine handle, for the shell's own native calls.
    pub fn engine_handle(&self) -> (h: usize)
        ensures
            h == self@.engine_handle,
    {
        self.hixl_handle
    }

    /// The name of the owned engine.
    pub fn local_engine(&self) -> (e: &String)
        ensures
            e@ == self@.local_engine,
    {
        &self.local_engine
    }

    /// Compatibility shim mirroring a verb-based protocol: connection
    /// lifecycle is fully handled by the queue-pair request, so this
    /// accepts any endpoint descriptor and does nothing.
    pub fn connect(&self, _endpoint: &RdmaQpInfo) -> (r: Result<(), RdmaError>)
        ensures
            r == Ok::<(), RdmaError>(()),
    {
        Ok(())
    }

    /// Compatibility shim: queue pairs need no separate initialization.
    pub fn initialize_qp(&self) -> (r: Result<bool, RdmaError>)
        ensures
            r == Ok::<bool, RdmaError>(true),
    {
        Ok(true)
    }

    /// Compatibility shim: a fixed placeholder connection descriptor.
    pub fn connection_info(&self) -> (r: Result<RdmaQpInfo, RdmaError>)
        ensures
            r matches Ok(info) && info.qp_num == 0 && info.lid == 0 && info.gid is None
                && info.psn == 0,
    {
        Ok(RdmaQpInfo { qp_num: 0, lid: 0, gid: None, psn: 0 })
    }

    /// Release a queue pair.  Queue pairs are cheap per-request views
    /// over a long-lived peer connection, not individually provisioned
    /// resources, so nothing is torn down and the call always succeeds;
    /// the established connection stays for the next request.
    pub fn release_queue_pair(&self, _qp: RdmaQueuePair) -> (r: Result<(), RdmaError>)
        ensures
            r == Ok::<(), RdmaError>(()),
    {
        Ok(())
    }

    /// Compatibility shim: always reports the single "ready" state.
    pub fn get_qp_state(&self) -> (r: Result<u32, RdmaError>)
        ensures
            r == Ok::<u32, RdmaError>(QP_STATE_READY),
    {
        Ok(QP_STATE_READY)
    }
}

/// One state-mutating operation of an owner, as the ghost trace model
/// sees it: the tables move only through these.
pub ghost enum ManagerEvent {
    /// A successful registration recorded this native handle.
    Registered { mem_handle: usize },
    /// A release removed this region id (present or not).
    Released { region_id: usize },
    /// A successful connect marked this peer connected.
    Connected { peer: Seq<char> },
}

/// The state transition of one event, exactly as the contracts of
/// `request_buffer`, `release_buffer` and `complete_connect` state it.
pub open spec fn apply_event(v: ManagerView, e: ManagerEvent) -> ManagerView {
    match e {
        ManagerEvent::Registered { mem_handle } => register_step(v, mem_handle),
        ManagerEvent::Released { region_id } => release_step(v, region_id),
        ManagerEvent::Connected { peer } => connect_step(v, peer),
    }
}

/// The state an owner reaches after serving a sequence of operations.
pub open spec fn apply_events(v: ManagerView, es: Seq<ManagerEvent>) -> ManagerView
    decreases es.len(),
{
    if es.len() == 0 {
        v
    } else {
        apply_events(apply_event(v, es[0]), es.skip(1))
    }
}

/// No registration of the trace runs the id counter past the machine
/// limit — the precondition every `request_buffer` call carries.
pub open spec fn trace_in_bounds(v: ManagerView, es: Seq<ManagerEvent>) -> bool
    decreases es.len(),
{
    if es.len() == 0 {
        true
    } else {
        &&& (es[0] is Registered ==> v.next_region_id < usize::MAX)
        &&& trace_in_bounds(apply_event(v, es[0]), es.skip(1))
    }
}

/// The region ids handed out along a trace, in order of issue.
pub open spec fn issued_ids(v: ManagerView, es: Seq<ManagerEvent>) -> Seq<usize>
    decreases es.len(),
{
    if es.len() == 0 {
        Seq::empty()
    } else {
        let rest = issued_ids(apply_event(v, es[0]), es.skip(1));
        if es[0] is Registered {
            seq![issued_region_id(v)] + rest
        } else {
            rest
        }
    }
}

/// The id counter never moves back, whatever an owner serves.
pub proof fn lemma_counter_never_decreases(v: ManagerView, es: Seq<ManagerEvent>)
    requires
        trace_in_bounds(v, es),
    ensures
        apply_events(v, es).next_region_id >= v.next_region_id,
    decreases es.len(),
{
    if es.len() > 0 {
        lemma_counter_never_decreases(apply_event(v, es[0]), es.skip(1));
    }
}

/// Every id a trace issues is at least the counter it started from.
proof fn lemma_issued_ids_lower_bound(v: ManagerView, es: Seq<ManagerEvent>)
    requires
        trace_in_bounds(v, es),
    ensures
        forall|i: int|
            0 <= i < issued_ids(v, es).len() ==> issued_ids(v, es)[i] >= v.next_region_id,
    decreases es.len(),
{
    if es.len() > 0 {
        let v1 = apply_event(v, es[0]);
        let ids = issued_ids(v, es);
        let rest = issued_ids(v1, es.skip(1));
        lemma_issued_ids_lower_bound(v1, es.skip(1));
        assert forall|i: int| 0 <= i < ids.len() implies ids[i] >= v.next_region_id by {
            if es[0] is Registered {
                if i > 0 {
                    assert(ids[i] == rest[i - 1]);
                    assert(rest[i - 1] >= v1.next_region_id);
                }
            } else {
                assert(ids[i] == rest[i]);
            }
        }
    }
}

/// Law: over every sequence of operations of one owner, the region ids
/// handed out by registrations are strictly increasing; on an owner
/// entering service the first one is 1; and no id is ever issued twice
/// — releases in between change none of this, so released ids are
/// never reused.
pub proof fn lemma_region_ids_unique_and_increasing(v: ManagerView, es: Seq<ManagerEvent>)
    requires
        trace_in_bounds(v, es),
    ensures
        forall|i: int, j: int|
            0 <= i < j < issued_ids(v, es).len() ==> issued_ids(v, es)[i] < issued_ids(v, es)[j],
        issued_ids(v, es).len() > 0 ==> issued_ids(v, es)[0] == v.next_region_id,
        forall|i: int, j: int|
            0 <= i < issued_ids(v, es).len() && 0 <= j < issued_ids(v, es).len() && i != j
                ==> issued_ids(v, es)[i] != issued_ids(v, es)[j],
    decreases es.len(),
{
    if es.len() > 0 {
        let v1 = apply_event(v, es[0]);
        let ids = issued_ids(v, es);
        let rest = issued_ids(v1, es.skip(1));
        lemma_region_ids_unique_and_increasing(v1, es.skip(1));
        lemma_issued_ids_lower_bound(v1, es.skip(1));
        if es[0] is Registered {
            assert forall|i: int, j: int| 0 <= i < j < ids.len() implies ids[i] < ids[j] by {
                if i == 0 {
                    assert(ids[j] == rest[j - 1]);
                    assert(rest[j - 1] >= v1.next_region_id);
                } else {
                    assert(ids[i] == rest[i - 1] && ids[j] == rest[j - 1]);
                }
            }
        }
    }
}

/// Law: connection establishment is idempotent.  Recording one
/// successful connect marks the peer connected; recording it again
/// changes nothing; and by the contract of `request_queue_pair`, every
/// later request for that peer is served `Ready` — the native connect
/// primitive is invoked at most once per peer, and both requests
/// succeed.
pub proof fn lemma_connect_idempotent(v: ManagerView, peer: Seq<char>)
    ensures
        connect_step(v, peer).connected.contains(peer),
        connect_step(connect_step(v, peer), peer) == connect_step(v, peer),
{
    assert(connect_step(connect_step(v, peer), peer) =~= connect_step(v, peer));
}

/// Appending one peer adds exactly its engine name to the connected
/// set.
proof fn lemma_connected_set_push(peers: Seq<String>, x: String)
    ensures
        connected_set(peers.push(x)) == connected_set(peers).insert(x@),
{
    assert forall|p: Seq<char>|
        connected_set(peers.push(x)).contains(p) == connected_set(peers).insert(x@).contains(
            p,
        ) by {
        if connected_set(peers.push(x)).contains(p) {
            let i = choose|i: int| 0 <= i < peers.push(x).len() && peers.push(x)[i]@ == p;
            if i < peers.len() {
                assert(peers[i]@ == p);
            } else {
                assert(p == x@);
            }
        }
        if connected_set(peers).contains(p) {
            let i = choose|i: int| 0 <= i < peers.len() && peers[i]@ == p;
            assert(peers.push(x)[i]@ == p);
        }
        if p == x@ {
            assert(peers.push(x)[peers.len() as int]@ == p);
        }
    }
    assert(connected_set(peers.push(x)) =~= connected_set(peers).insert(x@));
}

} // verus!
