use robot_agent::relay::RelayRecv;
use robot_agent::store::JobManager;

#[test]
fn new_job_creates_pending_record_with_inbound_channel() {
    let mut jobs = JobManager::default();
    let replaced = jobs.new_job(
        "j1".to_string(),
        "docker-container-launch".to_string(),
        "pending".to_string(),
    );
    assert!(!replaced);
    let rec = jobs.get_job_or_none(&"j1".to_string()).expect("job must exist");
    assert_eq!(rec.job_id, "j1");
    assert_eq!(rec.job_type, "docker-container-launch");
    assert_eq!(rec.status, "pending");
    // the inbound channel exists immediately after registration ...
    assert!(jobs.get_channel_to_job_tx_by_job_id(&"j1".to_string()).is_some());
    // ... and before any tunnel attaches there is no outbound channel
    assert!(rec.channel_tx.is_none());
    assert!(rec.tunnel.is_none());
    assert!(jobs.get_channel_by_job_id(&"j1".to_string()).is_none());
}

#[test]
fn reregistering_replaces_and_reports_it() {
    let mut jobs = JobManager::default();
    assert!(!jobs.new_job("j1".to_string(), "docker".to_string(), "pending".to_string()));
    jobs.set_job_status("j1".to_string(), "running".to_string());
    let replaced = jobs.new_job("j1".to_string(), "docker".to_string(), "pending".to_string());
    assert!(replaced);
    let rec = jobs.get_job_or_none(&"j1".to_string()).unwrap();
    assert_eq!(rec.status, "pending");
    assert!(rec.tunnel.is_none());
}

#[test]
fn set_status_walks_the_lifecycle() {
    let mut jobs = JobManager::default();
    jobs.new_job("j1".to_string(), "docker".to_string(), "pending".to_string());
    jobs.set_job_status("j1".to_string(), "running".to_string());
    assert_eq!(jobs.get_job_or_none(&"j1".to_string()).unwrap().status, "running");
    jobs.set_job_status("j1".to_string(), "done".to_string());
    assert_eq!(jobs.get_job_or_none(&"j1".to_string()).unwrap().status, "done");
}

#[test]
fn set_status_on_absent_id_is_a_silent_noop() {
    let mut jobs = JobManager::default();
    jobs.new_job("j1".to_string(), "docker".to_string(), "pending".to_string());
    jobs.set_job_status("ghost".to_string(), "running".to_string());
    assert!(jobs.get_job_or_none(&"ghost".to_string()).is_none());
    assert_eq!(jobs.get_job_or_none(&"j1".to_string()).unwrap().status, "pending");
}

#[test]
fn attach_creates_outbound_channel_and_tunnel() {
    let mut jobs = JobManager::default();
    jobs.new_job("j1".to_string(), "docker".to_string(), "pending".to_string());
    jobs.create_job_tunnel(&"j1".to_string(), "client-7".to_string());
    let rec = jobs.get_job_or_none(&"j1".to_string()).unwrap();
    assert!(rec.channel_tx.is_some());
    assert_eq!(rec.tunnel.unwrap().client_id, "client-7");
    assert!(jobs.get_channel_by_job_id(&"j1".to_string()).is_some());
}

#[test]
fn attach_to_absent_id_is_a_silent_noop() {
    let mut jobs = JobManager::default();
    jobs.create_job_tunnel(&"ghost".to_string(), "client".to_string());
    assert!(jobs.get_job_or_none(&"ghost".to_string()).is_none());
}

#[test]
fn second_attach_replaces_and_old_subscriber_sees_closure() {
    let mut jobs = JobManager::default();
    jobs.new_job("j1".to_string(), "docker".to_string(), "pending".to_string());
    jobs.create_job_tunnel(&"j1".to_string(), "client-a".to_string());
    let first = jobs.get_channel_by_job_id(&"j1".to_string()).unwrap();
    let mut old_cursor = first.subscribe();

    jobs.create_job_tunnel(&"j1".to_string(), "client-b".to_string());
    // exactly one active outbound channel: the second replaces the first
    let rec = jobs.get_job_or_none(&"j1".to_string()).unwrap();
    assert_eq!(rec.tunnel.unwrap().client_id, "client-b");
    let second = jobs.get_channel_by_job_id(&"j1".to_string()).unwrap();
    // the old subscriber observes closure on the active channel
    assert!(matches!(second.recv(&mut old_cursor), RelayRecv::Closed));
    // a fresh subscriber of the active channel works normally
    let mut cur = second.subscribe();
    assert!(matches!(second.recv(&mut cur), RelayRecv::Empty));
}

#[test]
fn inbound_send_reaches_a_subscriber_in_order() {
    let mut jobs = JobManager::default();
    jobs.new_job("j1".to_string(), "docker".to_string(), "pending".to_string());
    let before = jobs.get_channel_to_job_tx_by_job_id(&"j1".to_string()).unwrap();
    let mut cur = before.subscribe();
    assert!(jobs.send_to_job(&"j1".to_string(), "ls\n".to_string()));
    assert!(jobs.send_to_job(&"j1".to_string(), "pwd\n".to_string()));
    let after = jobs.get_channel_to_job_tx_by_job_id(&"j1".to_string()).unwrap();
    match after.recv(&mut cur) {
        RelayRecv::Chunk(s) => assert_eq!(s, "ls\n"),
        _ => panic!("expected the first chunk"),
    }
    match after.recv(&mut cur) {
        RelayRecv::Chunk(s) => assert_eq!(s, "pwd\n"),
        _ => panic!("expected the second chunk"),
    }
    assert!(matches!(after.recv(&mut cur), RelayRecv::Empty));
}

#[test]
fn sends_to_absent_or_tunnelless_jobs_are_dropped() {
    let mut jobs = JobManager::default();
    assert!(!jobs.send_to_job(&"ghost".to_string(), "x".to_string()));
    jobs.new_job("j1".to_string(), "docker".to_string(), "pending".to_string());
    // no tunnel attached: output chunks are dropped, not an error
    assert!(!jobs.broadcast_output(&"j1".to_string(), "out".to_string()));
    jobs.create_job_tunnel(&"j1".to_string(), "client".to_string());
    assert!(jobs.broadcast_output(&"j1".to_string(), "out".to_string()));
}

#[test]
fn two_jobs_stay_isolated() {
    let mut jobs = JobManager::default();
    jobs.new_job("a".to_string(), "docker".to_string(), "pending".to_string());
    jobs.new_job("b".to_string(), "docker".to_string(), "pending".to_string());
    jobs.set_job_status("a".to_string(), "running".to_string());
    jobs.create_job_tunnel(&"b".to_string(), "client".to_string());
    assert!(jobs.send_to_job(&"a".to_string(), "input".to_string()));
    let a = jobs.get_job_or_none(&"a".to_string()).unwrap();
    let b = jobs.get_job_or_none(&"b".to_string()).unwrap();
    assert_eq!(a.status, "running");
    assert_eq!(b.status, "pending");
    assert!(a.channel_tx.is_none());
    assert!(b.channel_tx.is_some());
}
