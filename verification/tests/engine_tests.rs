use nerine::addr::calculate_static_tcp_port;
use nerine::catalog::{build_catalog, Catalog};
use nerine::challenge::{
    Challenge, Container, DeployableContextData, DeploymentStrategy, DockerData, ExperimentalOptions,
    ExposeType, Flag, Limits, PointRange,
};
use nerine::engine::{
    compute_expiry, deployment_data_of, destroy_challenge, handle_deploy, handle_destroy,
    handle_get, plan_deploy, route_host, route_upstream, DeployRequest,
};
use nerine::error::Error;
use nerine::keychain::{build_registry, CaddyKeychain, ClientTLSKeychain, HostKeychain, KeychainRegistry};
use nerine::row::HostMapping;
use nerine::store::DeploymentStore;

fn keychain(id: &str) -> HostKeychain {
    HostKeychain {
        id: id.to_string(),
        docker: DeployableContextData {
            docker: DockerData::Local,
            docker_credentials: None,
            image_prefix: "ctf-".to_string(),
            repo: "registry.example".to_string(),
            experimental: ExperimentalOptions::default(),
        },
        caddy: CaddyKeychain {
            endpoint: "https://caddy.internal:2019".to_string(),
            base: "ctf.example".to_string(),
            mtls: ClientTLSKeychain {
                cacert: "test-ca-pem".to_string(),
                cert: "test-cert-pem".to_string(),
                key: "test-key-pem".to_string(),
            },
        },
    }
}

fn registry() -> KeychainRegistry {
    build_registry(vec![keychain("default")]).unwrap()
}

fn spec_a(strategy: DeploymentStrategy, expose: Vec<(u16, ExposeType)>) -> Challenge {
    Challenge {
        id: "a".to_string(),
        name: "a".to_string(),
        author: "author".to_string(),
        description: "d".to_string(),
        flag: Flag::Raw("flag{x}".to_string()),
        visible: Some(true),
        group: None,
        build_group: None,
        category: "pwn".to_string(),
        points: PointRange { min: 100, max: 500 },
        provide: None,
        container: Some(vec![(
            "default".to_string(),
            Container {
                build: "container".to_string(),
                limits: Limits::default(),
                env: Some(vec![("FLAG".to_string(), "flag{x}".to_string())]),
                expose: Some(expose),
                cap_add: None,
                privileged: None,
            },
        )]),
        strategy,
        bump_seed: 0,
        host: None,
        instance_lifetime: None,
    }
}

fn catalog_a(strategy: DeploymentStrategy, expose: Vec<(u16, ExposeType)>) -> Catalog {
    build_catalog(vec![spec_a(strategy, expose)]).unwrap()
}

#[test]
fn happy_static_deploy() {
    let cat = catalog_a(DeploymentStrategy::Static, vec![(1337, ExposeType::Tcp)]);
    let reg = registry();
    let mut store = DeploymentStore::new();

    let req = DeployRequest { challenge_id: 1, team_id: None, lifetime: None };
    let row = handle_deploy(&mut store, &req, 1000).unwrap();
    assert_ne!(row.public_id, "");
    assert_eq!(row.public_id.len(), 21);

    let plan = plan_deploy(&cat, &reg, "a", None, None, &Vec::new()).unwrap();
    assert_eq!(plan.network_name, "a-network");
    assert!(!plan.pull_images);
    assert_eq!(plan.containers.len(), 1);
    let cp = &plan.containers[0];
    assert_eq!(cp.container_name, "a-container-default");
    assert_eq!(cp.image, "registry.example/ctf-a");
    assert_eq!(cp.env, vec!["FLAG=flag{x}".to_string()]);

    let data = deployment_data_of(&plan);
    let expiry = compute_expiry(DeploymentStrategy::Static, None, None, 600, 1000);
    assert_eq!(expiry, None);
    store.finalize(row.id, data, expiry).unwrap();

    let got = handle_get(&store, &row.public_id).unwrap();
    assert!(got.deployed);
    assert!(got.destroyed_at.is_none());
    let data = got.data.unwrap();
    assert_eq!(data[0].0, "default");
    assert_eq!(data[0].1.container_id, "redacted-xxxxx");
    match &data[0].1.ports[0] {
        (1337, HostMapping::Tcp { port, base }) => {
            assert_eq!(*port, calculate_static_tcp_port("a", "default", 1337, 0));
            assert_eq!(base, "ctf.example");
        }
        other => panic!("unexpected mapping {:?}", other),
    }
}

#[test]
fn instanced_plan_consumes_acquired_ports() {
    let cat = catalog_a(
        DeploymentStrategy::Instanced,
        vec![(1337, ExposeType::Tcp), (80, ExposeType::Http), (4444, ExposeType::Tcp)],
    );
    let reg = registry();
    let team_pub = "team-pub".to_string();
    let ports = vec![40001u16, 40002u16];
    let plan = plan_deploy(&cat, &reg, "a", Some(3), Some(&team_pub), &ports).unwrap();
    assert_eq!(plan.network_name, "a-team-3-network");
    let cp = &plan.containers[0];
    assert_eq!(cp.container_name, "a-team-3-container-default");
    let mut tcp_ports = Vec::new();
    let mut subdomains = Vec::new();
    for (cport, m) in &cp.mappings {
        match m {
            HostMapping::Tcp { port, .. } => tcp_ports.push((*cport, *port)),
            HostMapping::Http { subdomain, base } => {
                assert_eq!(base, "ctf.example");
                subdomains.push((*cport, subdomain.clone()));
            }
        }
    }
    assert_eq!(tcp_ports, vec![(1337, 40001), (4444, 40002)]);
    assert_eq!(
        subdomains,
        vec![(80, nerine::addr::calculate_subdomain("a", Some("team-pub"), 80))]
    );
}

#[test]
fn plan_errors_name_their_cause() {
    let reg = registry();
    let cat = catalog_a(DeploymentStrategy::Instanced, vec![(1337, ExposeType::Tcp)]);

    match plan_deploy(&cat, &reg, "missing", None, None, &Vec::new()) {
        Err(Error::NotFound) => (),
        other => panic!("expected NotFound, got {:?}", other),
    }
    match plan_deploy(&cat, &reg, "a", None, None, &vec![40001]) {
        Err(Error::Validation { .. }) => (),
        other => panic!("expected Validation for a missing team, got {:?}", other),
    }
    match plan_deploy(&cat, &reg, "a", Some(3), None, &Vec::new()) {
        Err(Error::Misconfiguration { .. }) => (),
        other => panic!("expected Misconfiguration for missing ports, got {:?}", other),
    }

    let mut no_container = spec_a(DeploymentStrategy::Static, vec![]);
    no_container.container = None;
    let cat2 = build_catalog(vec![no_container]).unwrap();
    match plan_deploy(&cat2, &reg, "a", None, None, &Vec::new()) {
        Err(Error::Validation { .. }) => (),
        other => panic!("expected Validation for no containers, got {:?}", other),
    }

    let mut other_host = spec_a(DeploymentStrategy::Static, vec![]);
    other_host.host = Some("exotic".to_string());
    let cat3 = build_catalog(vec![other_host]).unwrap();
    match plan_deploy(&cat3, &reg, "a", None, None, &Vec::new()) {
        Err(Error::Misconfiguration { .. }) => (),
        other => panic!("expected Misconfiguration for a missing keychain, got {:?}", other),
    }
}

#[test]
fn expiry_prefers_spec_then_request_then_default() {
    let i = DeploymentStrategy::Instanced;
    assert_eq!(compute_expiry(i, Some(30), Some(120), 600, 1000), Some(1030));
    assert_eq!(compute_expiry(i, None, Some(120), 600, 1000), Some(1120));
    assert_eq!(compute_expiry(i, None, None, 600, 1000), Some(1600));
    assert_eq!(compute_expiry(DeploymentStrategy::Static, Some(30), Some(120), 600, 1000), None);
}

#[test]
fn teardown_returns_cleanup_and_marks_row() {
    let cat = catalog_a(
        DeploymentStrategy::Instanced,
        vec![(1337, ExposeType::Tcp), (80, ExposeType::Http)],
    );
    let reg = registry();
    let mut store = DeploymentStore::new();
    let req = DeployRequest { challenge_id: 1, team_id: Some(3), lifetime: Some(2) };
    let row = handle_deploy(&mut store, &req, 1000).unwrap();

    let team_pub = "team-pub".to_string();
    let plan = plan_deploy(&cat, &reg, "a", Some(3), Some(&team_pub), &vec![40001]).unwrap();
    let data = deployment_data_of(&plan);
    let expiry = compute_expiry(DeploymentStrategy::Instanced, None, Some(2), 600, 1000);
    assert_eq!(expiry, Some(1002));
    store.finalize(row.id, data, expiry).unwrap();

    let target = handle_destroy(&store, 1, Some(3));
    assert_eq!(target, Some(row.id));

    let td = destroy_challenge(&mut store, &cat, &reg, row.id, "a", 1002).unwrap().unwrap();
    assert_eq!(td.network, "a-team-3-network");
    assert_eq!(td.containers, vec!["a-team-3-container-default".to_string()]);
    let sub = nerine::addr::calculate_subdomain("a", Some("team-pub"), 80);
    assert_eq!(td.routes, vec![format!("{}.ctf.example", sub)]);

    let got = store.find_by_public_id(&row.public_id).unwrap();
    assert_eq!(got.destroyed_at, Some(1002));
    assert!(got.data.is_none());

    // The destroy request is idempotent: with the slot now free it is a
    // successful no-op.
    assert_eq!(handle_destroy(&store, 1, Some(3)), None);
    match destroy_challenge(&mut store, &cat, &reg, row.id, "a", 1003) {
        Err(Error::AlreadyDestroyed) => (),
        other => panic!("expected AlreadyDestroyed, got {:?}", other),
    }
}

#[test]
fn teardown_rejects_in_flight_deploys() {
    let cat = catalog_a(DeploymentStrategy::Static, vec![(1337, ExposeType::Tcp)]);
    let reg = registry();
    let mut store = DeploymentStore::new();
    let req = DeployRequest { challenge_id: 1, team_id: None, lifetime: None };
    let row = handle_deploy(&mut store, &req, 1000).unwrap();
    match destroy_challenge(&mut store, &cat, &reg, row.id, "a", 1001) {
        Err(Error::NotYetDeployed) => (),
        other => panic!("expected NotYetDeployed, got {:?}", other),
    }
}

#[test]
fn route_strings() {
    assert_eq!(route_host("a-xyz", "ctf.example"), "a-xyz.ctf.example");
    assert_eq!(route_upstream("172.17.0.3", 1337), "172.17.0.3:1337");
}

#[test]
fn image_id_distinguishes_default() {
    let c = spec_a(DeploymentStrategy::Static, vec![]);
    let ctx = keychain("default").docker;
    assert_eq!(c.image_id(&ctx, "default"), "registry.example/ctf-a");
    assert_eq!(c.image_id(&ctx, "db"), "registry.example/ctf-a-db");
}

#[test]
fn static_ports_survive_reload_and_redeploy() {
    let reg = registry();
    let mut store = DeploymentStore::new();
    let req = DeployRequest { challenge_id: 1, team_id: None, lifetime: None };

    // First deploy against the first catalog load.
    let cat1 = catalog_a(DeploymentStrategy::Static, vec![(1337, ExposeType::Tcp)]);
    let row1 = handle_deploy(&mut store, &req, 1000).unwrap();
    let plan1 = plan_deploy(&cat1, &reg, "a", None, None, &Vec::new()).unwrap();
    store.finalize(row1.id, deployment_data_of(&plan1), None).unwrap();

    // Destroy, reload the catalog with the same spec, deploy again.
    destroy_challenge(&mut store, &cat1, &reg, row1.id, "a", 2000).unwrap();
    let cat2 = catalog_a(DeploymentStrategy::Static, vec![(1337, ExposeType::Tcp)]);
    let row2 = handle_deploy(&mut store, &req, 3000).unwrap();
    let plan2 = plan_deploy(&cat2, &reg, "a", None, None, &Vec::new()).unwrap();
    store.finalize(row2.id, deployment_data_of(&plan2), None).unwrap();

    let port_of = |plan: &nerine::engine::DeployPlan| match &plan.containers[0].mappings[0] {
        (1337, HostMapping::Tcp { port, .. }) => *port,
        other => panic!("unexpected mapping {:?}", other),
    };
    assert_eq!(port_of(&plan1), port_of(&plan2));
    assert_eq!(port_of(&plan2), calculate_static_tcp_port("a", "default", 1337, 0));
}

