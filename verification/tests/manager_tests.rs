use monarch_hixl::errors::RdmaError;
use monarch_hixl::rdma_components::QueuePairPlan;
use monarch_hixl::rdma_components::RdmaBuffer;
use monarch_hixl::rdma_manager_actor::RdmaManagerActor;
use monarch_hixl::rdma_manager_actor::CONNECT_TIMEOUT_MS;

fn fresh_manager() -> RdmaManagerActor {
    RdmaManagerActor::new(0x1000, String::from("engine-a"))
}

#[test]
fn region_ids_start_at_one_and_increase() {
    let mut m = fresh_manager();
    let b1 = m
        .request_buffer(String::from("owner-a"), 0x7000, 4096, Ok(501))
        .unwrap();
    assert_eq!(b1.mr_id, 1);
    assert_eq!(b1.addr, 0x7000);
    assert_eq!(b1.size, 4096);
    let b2 = m
        .request_buffer(String::from("owner-a"), 0x9000, 8192, Ok(502))
        .unwrap();
    assert_eq!(b2.mr_id, 2);
    assert_eq!(b2.size, 8192);
    assert_eq!(m.region_count(), 2);
}

#[test]
fn buffer_capability_names_owner_and_engine() {
    let mut m = fresh_manager();
    let b = m
        .request_buffer(String::from("owner-a"), 0x7000, 64, Ok(9))
        .unwrap();
    assert_eq!(b.owner, "owner-a");
    assert_eq!(b.device_name, "engine-a");
    assert_eq!(b.lkey, 0);
    assert_eq!(b.rkey, 0);
}

#[test]
fn failed_registration_leaves_counter_and_table_alone() {
    let mut m = fresh_manager();
    let r = m.request_buffer(String::from("owner-a"), 0x7000, 64, Err(String::from("no mem")));
    assert_eq!(
        r.unwrap_err(),
        RdmaError::RegistrationError {
            detail: String::from("no mem")
        }
    );
    assert_eq!(m.region_count(), 0);
    // The next successful registration still gets id 1.
    let b = m
        .request_buffer(String::from("owner-a"), 0x7000, 64, Ok(77))
        .unwrap();
    assert_eq!(b.mr_id, 1);
}

#[test]
fn ids_are_not_reused_after_release() {
    let mut m = fresh_manager();
    let b1 = m
        .request_buffer(String::from("owner-a"), 0x7000, 64, Ok(41))
        .unwrap();
    assert_eq!(m.release_buffer(&b1), Some(41));
    let b2 = m
        .request_buffer(String::from("owner-a"), 0x7000, 64, Ok(42))
        .unwrap();
    assert_eq!(b2.mr_id, 2);
}

#[test]
fn release_of_unknown_id_is_a_silent_success() {
    let mut m = fresh_manager();
    let stray = RdmaBuffer {
        owner: String::from("owner-a"),
        mr_id: 999,
        lkey: 0,
        rkey: 0,
        addr: 0x7000,
        size: 64,
        device_name: String::from("engine-a"),
    };
    assert_eq!(m.release_buffer(&stray), None);
    assert_eq!(m.region_count(), 0);
}

#[test]
fn double_release_is_idempotent() {
    let mut m = fresh_manager();
    let b = m
        .request_buffer(String::from("owner-a"), 0x7000, 64, Ok(55))
        .unwrap();
    assert_eq!(m.region_count(), 1);
    assert_eq!(m.release_buffer(&b), Some(55));
    assert_eq!(m.region_count(), 0);
    assert_eq!(m.release_buffer(&b), None);
    assert_eq!(m.region_count(), 0);
}

#[test]
fn queue_pair_request_connects_at_most_once() {
    let mut m = fresh_manager();
    let peer = String::from("peer-x");
    let mut native_connects: usize = 0;
    // First request: the peer is unknown, so the plan demands the
    // native connect call.
    let qp1 = match m.request_queue_pair(&peer) {
        QueuePairPlan::MustConnect { timeout_ms } => {
            assert_eq!(timeout_ms, CONNECT_TIMEOUT_MS);
            native_connects += 1;
            m.complete_connect(&peer, Ok(())).unwrap()
        }
        QueuePairPlan::Ready(qp) => qp,
    };
    assert_eq!(qp1.remote_engine, "peer-x");
    assert_eq!(qp1.hixl_handle, 0x1000);
    // Second request for the same peer: served without any native call.
    let qp2 = match m.request_queue_pair(&peer) {
        QueuePairPlan::MustConnect { .. } => {
            native_connects += 1;
            m.complete_connect(&peer, Ok(())).unwrap()
        }
        QueuePairPlan::Ready(qp) => qp,
    };
    assert_eq!(qp2.remote_engine, "peer-x");
    assert_eq!(native_connects, 1);
}

#[test]
fn failed_connect_surfaces_error_and_changes_nothing() {
    let mut m = fresh_manager();
    let peer = String::from("peer-x");
    assert!(matches!(
        m.request_queue_pair(&peer),
        QueuePairPlan::MustConnect { .. }
    ));
    let e = m
        .complete_connect(&peer, Err(String::from("unreachable")))
        .unwrap_err();
    assert_eq!(
        e,
        RdmaError::ConnectionError {
            peer: String::from("peer-x"),
            detail: String::from("unreachable")
        }
    );
    assert!(!m.is_connected(&peer));
    // A later request tries the connect again.
    assert!(matches!(
        m.request_queue_pair(&peer),
        QueuePairPlan::MustConnect { .. }
    ));
}

#[test]
fn connections_are_tracked_per_peer() {
    let mut m = fresh_manager();
    let px = String::from("peer-x");
    let py = String::from("peer-y");
    assert!(matches!(
        m.request_queue_pair(&px),
        QueuePairPlan::MustConnect { .. }
    ));
    m.complete_connect(&px, Ok(())).unwrap();
    assert!(m.is_connected(&px));
    assert!(!m.is_connected(&py));
    assert!(matches!(m.request_queue_pair(&px), QueuePairPlan::Ready(_)));
    assert!(matches!(
        m.request_queue_pair(&py),
        QueuePairPlan::MustConnect { .. }
    ));
}

#[test]
fn release_queue_pair_keeps_the_connection() {
    let mut m = fresh_manager();
    let peer = String::from("peer-x");
    assert!(matches!(
        m.request_queue_pair(&peer),
        QueuePairPlan::MustConnect { .. }
    ));
    let qp = m.complete_connect(&peer, Ok(())).unwrap();
    assert_eq!(m.release_queue_pair(qp), Ok(()));
    // The connection outlives the queue pair.
    assert!(m.is_connected(&peer));
    assert!(matches!(m.request_queue_pair(&peer), QueuePairPlan::Ready(_)));
}

#[test]
fn compatibility_operations_report_fixed_ready_values() {
    let m = fresh_manager();
    let info = m.connection_info().unwrap();
    assert_eq!(info.qp_num, 0);
    assert_eq!(info.lid, 0);
    assert!(info.gid.is_none());
    assert_eq!(info.psn, 0);
    assert_eq!(m.connect(&info), Ok(()));
    assert_eq!(m.initialize_qp(), Ok(true));
    assert_eq!(m.get_qp_state(), Ok(2));
}

#[test]
fn manager_exposes_engine_identity() {
    let m = fresh_manager();
    assert_eq!(m.engine_handle(), 0x1000);
    assert_eq!(m.local_engine(), "engine-a");
}
