use nerine::catalog::{build_catalog, CatalogCache};
use nerine::challenge::{Challenge, Container, DeploymentStrategy, ExposeType, Flag, Limits, PointRange};
use nerine::error::Error;

fn chall(slug: &str, strategy: DeploymentStrategy, expose: Vec<(u16, ExposeType)>) -> Challenge {
    Challenge {
        id: slug.to_string(),
        name: slug.to_string(),
        author: "author".to_string(),
        description: "d".to_string(),
        flag: Flag::Raw("flag{x}".to_string()),
        visible: Some(true),
        group: None,
        build_group: None,
        category: "misc".to_string(),
        points: PointRange { min: 100, max: 500 },
        provide: None,
        container: Some(vec![(
            "default".to_string(),
            Container {
                build: "container".to_string(),
                limits: Limits::default(),
                env: None,
                expose: Some(expose),
                cap_add: None,
                privileged: None,
            },
        )]),
        strategy,
        bump_seed: 0,
        host: None,
        instance_lifetime: None,
    }
}

#[test]
fn catalog_builds_and_answers_by_slug() {
    let cat = build_catalog(vec![
        chall("a", DeploymentStrategy::Static, vec![(1337, ExposeType::Tcp)]),
        chall("b", DeploymentStrategy::Instanced, vec![(80, ExposeType::Http)]),
    ])
    .unwrap();
    assert_eq!(cat.len(), 2);
    assert_eq!(cat.get("a").unwrap().id, "a");
    assert_eq!(cat.get("b").unwrap().id, "b");
    assert!(cat.get("c").is_none());
}

#[test]
fn duplicate_slug_is_rejected() {
    let r = build_catalog(vec![
        chall("a", DeploymentStrategy::Static, vec![]),
        chall("a", DeploymentStrategy::Static, vec![]),
    ]);
    match r {
        Err(Error::Validation { message }) => assert!(message.contains("duplicate")),
        other => panic!("expected Validation, got {:?}", other),
    }
}

#[test]
fn invalid_slug_is_rejected() {
    let r = build_catalog(vec![chall("Bad_Slug", DeploymentStrategy::Static, vec![])]);
    match r {
        Err(Error::Validation { message }) => assert!(message.contains("invalid")),
        other => panic!("expected Validation, got {:?}", other),
    }
}

#[test]
fn collision_at_load_names_both_slugs() {
    // Hunt for two container ports whose deterministic host ports collide
    // across the two slugs; by pigeonhole over the 16-bit digest such a
    // pair exists well inside the search bound.
    let mut by_value: Vec<Option<u16>> = vec![None; 65536];
    for pb in 1u16..2000 {
        let vb = nerine::addr::calculate_static_tcp_port("b", "default", pb, 0);
        by_value[vb as usize] = Some(pb);
    }
    let mut pair = None;
    for pa in 1u16..2000 {
        let va = nerine::addr::calculate_static_tcp_port("a", "default", pa, 0);
        if let Some(pb) = by_value[va as usize] {
            pair = Some((pa, pb));
            break;
        }
    }
    let (pa, pb) = pair.expect("no collision found in the search bound");
    let r = build_catalog(vec![
        chall("a", DeploymentStrategy::Static, vec![(pa, ExposeType::Tcp)]),
        chall("b", DeploymentStrategy::Static, vec![(pb, ExposeType::Tcp)]),
    ]);
    match r {
        Err(Error::Validation { message }) => {
            assert!(message.contains("challenge a") || message.contains("challenge b"));
            assert!(message.contains("already used by challenge"));
            assert!(message.contains("bump_seed"));
        }
        other => panic!("expected Validation, got {:?}", other),
    }
}

#[test]
fn collision_message_names_the_host() {
    // Two identical TCP exposures of one container collide with each
    // other; with a pinned host the message names it.
    let mut c = chall("a", DeploymentStrategy::Static, vec![(80, ExposeType::Tcp), (80, ExposeType::Tcp)]);
    c.host = Some("h1".to_string());
    match build_catalog(vec![c]) {
        Err(Error::Validation { message }) => {
            assert!(message.contains(" on host h1 "));
            assert!(message.contains("already used by challenge a"));
        }
        other => panic!("expected Validation, got {:?}", other),
    }
}

#[test]
fn instanced_ports_never_collide_at_load() {
    // The same two ports on instanced challenges are no collision: their
    // host ports are picked at deploy time.
    let r = build_catalog(vec![
        chall("a", DeploymentStrategy::Instanced, vec![(1337, ExposeType::Tcp)]),
        chall("b", DeploymentStrategy::Instanced, vec![(1337, ExposeType::Tcp)]),
    ]);
    assert!(r.is_ok());
}

#[test]
fn reload_is_idempotent_for_static_ports() {
    let build = || {
        build_catalog(vec![chall("a", DeploymentStrategy::Static, vec![(1337, ExposeType::Tcp)])])
            .unwrap()
    };
    let c1 = build();
    let c2 = build();
    let p1 = nerine::addr::calculate_static_tcp_port(&c1.get("a").unwrap().id, "default", 1337, 0);
    let p2 = nerine::addr::calculate_static_tcp_port(&c2.get("a").unwrap().id, "default", 1337, 0);
    assert_eq!(p1, p2);
}

#[test]
fn catalog_swap_is_wholesale() {
    let old_cat = build_catalog(vec![
        chall("a", DeploymentStrategy::Static, vec![]),
        chall("b", DeploymentStrategy::Static, vec![]),
    ])
    .unwrap();
    let new_cat = build_catalog(vec![
        chall("b", DeploymentStrategy::Static, vec![]),
        chall("c", DeploymentStrategy::Static, vec![]),
    ])
    .unwrap();

    let mut cache = CatalogCache::new(old_cat);
    {
        let before = cache.snapshot();
        assert!(before.get("a").is_some() && before.get("c").is_none());
    }
    let prior = cache.replace(new_cat);
    assert!(prior.get("a").is_some() && prior.get("c").is_none());
    let after = cache.snapshot();
    assert!(after.get("a").is_none());
    assert!(after.get("b").is_some());
    assert!(after.get("c").is_some());
}
