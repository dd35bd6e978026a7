use nerine::engine::{compute_expiry, handle_deploy, DeployRequest};
use nerine::challenge::DeploymentStrategy;
use nerine::reaper::{lease_delay, startup_sweep, ScheduledTeardown};
use nerine::store::DeploymentStore;

#[test]
fn restart_recovery_schedules_outstanding_leases() {
    let mut store = DeploymentStore::new();
    let row = handle_deploy(
        &mut store,
        &DeployRequest { challenge_id: 1, team_id: Some(3), lifetime: None },
        1000,
    )
    .unwrap();
    store.finalize(row.id, Vec::new(), Some(1060)).unwrap();

    // A restart at t=1000 rebuilds the schedule from the rows alone.
    let sched = startup_sweep(&store, 1000);
    assert_eq!(sched, vec![ScheduledTeardown { row_id: row.id, delay: 60 }]);
}

#[test]
fn overdue_leases_are_clamped_to_now() {
    let mut store = DeploymentStore::new();
    let row = handle_deploy(
        &mut store,
        &DeployRequest { challenge_id: 1, team_id: Some(3), lifetime: None },
        1000,
    )
    .unwrap();
    store.finalize(row.id, Vec::new(), Some(1060)).unwrap();
    let sched = startup_sweep(&store, 5000);
    assert_eq!(sched, vec![ScheduledTeardown { row_id: row.id, delay: 0 }]);
}

#[test]
fn sweep_skips_destroyed_and_leaseless_rows() {
    let mut store = DeploymentStore::new();
    let static_row = handle_deploy(
        &mut store,
        &DeployRequest { challenge_id: 1, team_id: None, lifetime: None },
        1000,
    )
    .unwrap();
    store.finalize(static_row.id, Vec::new(), None).unwrap();

    let leased = handle_deploy(
        &mut store,
        &DeployRequest { challenge_id: 2, team_id: Some(1), lifetime: None },
        1000,
    )
    .unwrap();
    store.finalize(leased.id, Vec::new(), Some(1050)).unwrap();
    store.mark_destroyed(leased.id, 1020).unwrap();

    assert!(startup_sweep(&store, 1030).is_empty());
}

#[test]
fn instanced_lease_expiry_tears_the_row_down() {
    let mut store = DeploymentStore::new();
    let row = handle_deploy(
        &mut store,
        &DeployRequest { challenge_id: 1, team_id: Some(3), lifetime: Some(2) },
        1000,
    )
    .unwrap();
    let expiry = compute_expiry(DeploymentStrategy::Instanced, None, Some(2), 600, 1000);
    store.finalize(row.id, Vec::new(), expiry).unwrap();
    let expired_at = expiry.unwrap();
    assert_eq!(lease_delay(expired_at, 1000), 2);

    // At expiry the scheduled task marks the row destroyed.
    store.mark_destroyed(row.id, expired_at).unwrap();
    let got = store.find_by_public_id(&row.public_id).unwrap();
    assert_eq!(got.destroyed_at, Some(1002));
    assert!(got.data.is_none());
}
