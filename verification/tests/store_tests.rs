use nerine::error::Error;
use nerine::guard::{CaddyGuard, CleanupAction, DockerGuard};
use nerine::row::{ChallengeDeployment, DeploymentDataS, HostMapping};
use nerine::store::DeploymentStore;

fn claim(store: &mut DeploymentStore, chall: i32, team: Option<i32>, pid: &str, now: i64)
    -> Result<nerine::row::ChallengeDeployment, Error>
{
    store.claim(chall, team, pid.to_string(), now)
}

#[test]
fn double_deploy_race_one_winner() {
    let mut store = DeploymentStore::new();
    let first = claim(&mut store, 7, Some(3), "pid-1", 100).unwrap();
    assert_eq!(first.challenge_id, 7);
    assert_eq!(first.team_id, Some(3));
    assert!(!first.deployed);
    assert!(first.data.is_none());

    let second = claim(&mut store, 7, Some(3), "pid-2", 101);
    match second {
        Err(Error::AlreadyDeployed { public_id }) => assert_eq!(public_id, "pid-1"),
        other => panic!("expected AlreadyDeployed, got {:?}", other),
    }
    assert_eq!(store.len(), 1, "exactly one row exists for the pair");
}

#[test]
fn distinct_slots_do_not_collide() {
    let mut store = DeploymentStore::new();
    claim(&mut store, 7, Some(3), "pid-1", 100).unwrap();
    claim(&mut store, 7, Some(4), "pid-2", 100).unwrap();
    claim(&mut store, 7, None, "pid-3", 100).unwrap();
    claim(&mut store, 8, Some(3), "pid-4", 100).unwrap();
    assert_eq!(store.len(), 4);
}

#[test]
fn deploy_success_row_state() {
    let mut store = DeploymentStore::new();
    let row = claim(&mut store, 1, None, "pid-1", 100).unwrap();
    store.finalize(row.id, Vec::new(), None).unwrap();
    let got = store.find_by_public_id("pid-1").unwrap();
    assert!(got.deployed);
    assert!(got.data.is_some());
    assert!(got.destroyed_at.is_none());
}

#[test]
fn teardown_clears_data_and_sets_destroyed() {
    let mut store = DeploymentStore::new();
    let row = claim(&mut store, 1, None, "pid-1", 100).unwrap();
    store.finalize(row.id, Vec::new(), None).unwrap();
    store.mark_destroyed(row.id, 250).unwrap();
    let got = store.find_by_public_id("pid-1").unwrap();
    assert_eq!(got.destroyed_at, Some(250));
    assert!(got.data.is_none());
}

#[test]
fn destroy_twice_reports_already_destroyed() {
    let mut store = DeploymentStore::new();
    let row = claim(&mut store, 1, None, "pid-1", 100).unwrap();
    store.finalize(row.id, Vec::new(), None).unwrap();
    store.mark_destroyed(row.id, 200).unwrap();
    match store.mark_destroyed(row.id, 201) {
        Err(Error::AlreadyDestroyed) => (),
        other => panic!("expected AlreadyDestroyed, got {:?}", other),
    }
}

#[test]
fn slot_reopens_after_destroy() {
    let mut store = DeploymentStore::new();
    let row = claim(&mut store, 1, Some(2), "pid-1", 100).unwrap();
    store.finalize(row.id, Vec::new(), None).unwrap();
    store.mark_destroyed(row.id, 200).unwrap();
    let again = claim(&mut store, 1, Some(2), "pid-2", 300).unwrap();
    assert_ne!(again.id, row.id);
    assert_eq!(store.len(), 2);
}

#[test]
fn failed_deploy_frees_slot() {
    let mut store = DeploymentStore::new();
    let row = claim(&mut store, 5, Some(1), "pid-1", 100).unwrap();
    store.drop_pending(row.id);
    assert!(store.find_active(5, Some(1)).is_none());
    assert_eq!(store.len(), 0);
    claim(&mut store, 5, Some(1), "pid-2", 101).unwrap();
}

#[test]
fn missing_rows_report_not_found() {
    let mut store = DeploymentStore::new();
    match store.finalize(99, Vec::new(), None) {
        Err(Error::NotFound) => (),
        other => panic!("expected NotFound, got {:?}", other),
    }
    match store.mark_destroyed(99, 10) {
        Err(Error::NotFound) => (),
        other => panic!("expected NotFound, got {:?}", other),
    }
}

#[test]
fn duplicate_public_id_is_a_database_error() {
    let mut store = DeploymentStore::new();
    claim(&mut store, 1, None, "pid-1", 100).unwrap();
    match claim(&mut store, 2, None, "pid-1", 100) {
        Err(Error::Database { .. }) => (),
        other => panic!("expected Database, got {:?}", other),
    }
}

#[test]
fn sanitize_scrubs_container_ids() {
    let row = ChallengeDeployment {
        id: 1,
        public_id: "pid".to_string(),
        team_id: None,
        challenge_id: 2,
        deployed: true,
        data: Some(vec![(
            "default".to_string(),
            DeploymentDataS {
                container_id: "a-container-default".to_string(),
                ports: vec![(1337, HostMapping::Tcp { port: 4444, base: "ctf.example".to_string() })],
            },
        )]),
        created_at: 0,
        expired_at: None,
        destroyed_at: None,
    };
    let clean = row.sanitize();
    let data = clean.data.unwrap();
    assert_eq!(data[0].0, "default");
    assert_eq!(data[0].1.container_id, "redacted-xxxxx");
    match &data[0].1.ports[0] {
        (1337, HostMapping::Tcp { port: 4444, base }) => assert_eq!(base, "ctf.example"),
        other => panic!("ports changed: {:?}", other),
    }
}

#[test]
fn guards_clean_up_in_reverse_order() {
    let mut g = DockerGuard::new();
    g.network("a-network");
    g.container("a-container-default");
    g.container("a-container-db");
    let acts = g.cleanup_actions();
    assert_eq!(acts.len(), 3);
    match &acts[0] {
        CleanupAction::RemoveContainer(s) => assert_eq!(s, "a-container-db"),
        other => panic!("unexpected action {:?}", other),
    }
    match &acts[1] {
        CleanupAction::RemoveContainer(s) => assert_eq!(s, "a-container-default"),
        other => panic!("unexpected action {:?}", other),
    }
    match &acts[2] {
        CleanupAction::RemoveNetwork(s) => assert_eq!(s, "a-network"),
        other => panic!("unexpected action {:?}", other),
    }

    let mut c = CaddyGuard::new();
    c.route("x.ctf.example");
    c.route("y.ctf.example");
    let acts = c.cleanup_actions();
    assert_eq!(acts.len(), 2);
    match &acts[0] {
        CleanupAction::DeleteRoute(s) => assert_eq!(s, "y.ctf.example"),
        other => panic!("unexpected action {:?}", other),
    }
}

#[test]
fn committed_guards_clean_nothing() {
    let mut g = DockerGuard::new();
    g.container("a-container-default");
    g.commit();
    assert!(g.cleanup_actions().is_empty());
    let mut c = CaddyGuard::new();
    c.route("x.ctf.example");
    c.commit();
    assert!(c.cleanup_actions().is_empty());
}
