//! The deployment engine: the decisions and computed values of the
//! deploy and teardown paths.  Planning resolves the spec, selects the
//! keychain, and computes every name, image reference, environment
//! string and host mapping; a thin driver performs the remote calls the
//! plan describes and feeds their results back in.

use vstd::prelude::*;

use crate::addr::{
    calculate_container_name, calculate_network_name, calculate_subdomain,
    calculate_static_tcp_port, spec_container_name, spec_network_name, spec_static_port,
    spec_subdomain,
};
use crate::catalog::Catalog;
use crate::challenge::{Challenge, Container, DeploymentStrategy, ExposeType, spec_image_id};
use crate::error::Error;
use crate::keychain::{HostKeychain, KeychainRegistry, spec_has_id};
use crate::row::{DeploymentData, DeploymentDataS, HostMapping};

verus! {

/// A deploy or destroy request as the control surface receives it.
#[derive(Debug, Clone)]
pub struct DeployRequest {
    pub challenge_id: i32,
    pub team_id: Option<i32>,
    pub lifetime: Option<u64>,
}

/// Everything the driver needs to create and start one container.
#[derive(Debug)]
pub struct ContainerPlan {
    /// The container entry name; also the network alias.
    pub ct: String,
    /// The deterministic container name.
    pub container_name: String,
    /// The image reference to create from.
    pub image: String,
    /// The environment, materialized as `K=V` strings.
    pub env: Vec<String>,
    pub cap_add: Option<Vec<String>>,
    pub privileged: Option<bool>,
    pub cpu: Option<i64>,
    pub mem: Option<i64>,
    /// The public mapping of every exposed container port.
    pub mappings: Vec<(u16, HostMapping)>,
}

/// The whole plan of one deploy attempt.
#[derive(Debug)]
pub struct DeployPlan {
    /// The deterministic network name to create or reuse.
    pub network_name: String,
    /// Whether images are pulled first: registry credentials exist.
    pub pull_images: bool,
    pub containers: Vec<ContainerPlan>,
}

/// The number of TCP exposures in an expose list.
pub open spec fn spec_tcp_count(e: Seq<(u16, ExposeType)>) -> int
    decreases e.len(),
{
    if e.len() == 0 {
        0
    } else {
        spec_tcp_count(e.drop_last()) + if e.last().1 == ExposeType::Tcp {
            1int
        } else {
            0int
        }
    }
}

/// The TCP exposures of one container entry.
pub open spec fn spec_tcp_of_container(entry: (String, Container)) -> int {
    match entry.1.expose {
        Some(e) => spec_tcp_count(e@),
        None => 0,
    }
}

/// The ephemeral host ports an instanced deploy consumes: one per TCP
/// exposure, over a prefix of the container list.
pub open spec fn spec_ports_needed(containers: Seq<(String, Container)>) -> int
    decreases containers.len(),
{
    if containers.len() == 0 {
        0
    } else {
        spec_ports_needed(containers.drop_last()) + spec_tcp_of_container(containers.last())
    }
}

/// String sequences equal by view.
pub open spec fn spec_strvec_eqv(a: Seq<String>, b: Seq<String>) -> bool {
    a.len() == b.len() && forall|i: int| 0 <= i < a.len() ==> (#[trigger] a[i])@ == b[i]@
}

/// Optional string vectors equal by view.
pub open spec fn spec_opt_strvec_eqv(a: Option<Vec<String>>, b: Option<Vec<String>>) -> bool {
    match (a, b) {
        (None, None) => true,
        (Some(x), Some(y)) => spec_strvec_eqv(x@, y@),
        _ => false,
    }
}

/// What one computed host mapping must be for one exposure: TCP keeps
/// the deterministic port for a static deploy and the next acquired
/// ephemeral port for an instanced one; HTTP gets the deterministic
/// subdomain; both carry the proxy's base domain.
pub open spec fn spec_mapping_ok(
    m: (u16, HostMapping),
    e: (u16, ExposeType),
    slug: Seq<char>,
    ct: Seq<char>,
    bump: u64,
    base: Seq<char>,
    pub_team: Option<Seq<char>>,
    strategy: DeploymentStrategy,
    ports: Seq<u16>,
    pidx: int,
) -> bool {
    &&& m.0 == e.0
    &&& match e.1 {
        ExposeType::Tcp => (m.1 matches HostMapping::Tcp { port, base: b } && b@ == base && port
            == if strategy == DeploymentStrategy::Static {
            spec_static_port(slug, ct, e.0, bump)
        } else {
            ports[pidx]
        }),
        ExposeType::Http => (m.1 matches HostMapping::Http { subdomain, base: b } && b@ == base
            && subdomain@ == spec_subdomain(slug, pub_team, e.0)),
    }
}

/// What one container plan must be for one container entry.
pub open spec fn spec_container_plan_ok(
    p: ContainerPlan,
    entry: (String, Container),
    slug: Seq<char>,
    strategy: DeploymentStrategy,
    team_id: Option<i32>,
    bump: u64,
    base: Seq<char>,
    pub_team: Option<Seq<char>>,
    repo: Seq<char>,
    prefix: Seq<char>,
    ports: Seq<u16>,
    offset: int,
) -> bool {
    &&& p.ct@ == entry.0@
    &&& p.container_name@ == spec_container_name(slug, strategy, entry.0@, team_id)
    &&& p.image@ == spec_image_id(repo, prefix, slug, entry.0@)
    &&& match entry.1.env {
        None => p.env@.len() == 0,
        Some(e) => p.env@.len() == e@.len() && forall|i: int|
            0 <= i < e@.len() ==> (#[trigger] p.env@[i])@ == e@[i].0@ + "="@ + e@[i].1@,
    }
    &&& spec_opt_strvec_eqv(p.cap_add, entry.1.cap_add)
    &&& p.privileged == entry.1.privileged
    &&& p.cpu == entry.1.limits.cpu
    &&& p.mem == entry.1.limits.mem
    &&& match entry.1.expose {
        None => p.mappings@.len() == 0,
        Some(e) => p.mappings@.len() == e@.len() && forall|i: int|
            0 <= i < e@.len() ==> spec_mapping_ok(
                #[trigger] p.mappings@[i],
                e@[i],
                slug,
                ct_of(entry),
                bump,
                base,
                pub_team,
                strategy,
                ports,
                offset + spec_tcp_count(e@.subrange(0, i)),
            ),
    }
}

/// The entry name of a container entry, as characters.
pub open spec fn ct_of(entry: (String, Container)) -> Seq<char> {
    entry.0@
}

/// What the whole plan must be for the found challenge and keychain.
pub open spec fn spec_plan_ok(
    plan: DeployPlan,
    c: Challenge,
    kc: HostKeychain,
    slug: Seq<char>,
    team_id: Option<i32>,
    pub_team: Option<Seq<char>>,
    ports: Seq<u16>,
) -> bool {
    &&& plan.network_name@ == spec_network_name(slug, c.strategy, team_id)
    &&& plan.pull_images == (kc.docker.docker_credentials is Some)
    &&& c.container matches Some(v) && plan.containers@.len() == v@.len() && forall|k: int|
        0 <= k < v@.len() ==> spec_container_plan_ok(
            #[trigger] plan.containers@[k],
            v@[k],
            slug,
            c.strategy,
            team_id,
            c.bump_seed,
            kc.caddy.base@,
            pub_team,
            kc.docker.repo@,
            kc.docker.image_prefix@,
            ports,
            spec_ports_needed(v@.subrange(0, k)),
        )
}

/// The host id a challenge selects from the registry.
pub open spec fn spec_requested_host(c: Challenge) -> Seq<char> {
    match c.host {
        Some(h) => h@,
        None => "default"@,
    }
}

/// Whether one challenge can be deployed at all: it has containers, its
/// host has a keychain, and an instanced deploy has a team and enough
/// acquired ephemeral ports.
pub open spec fn spec_challenge_deployable(
    c: Challenge,
    reg: Seq<HostKeychain>,
    team_id: Option<i32>,
    nports: int,
) -> bool {
    &&& c.container is Some
    &&& spec_has_id(reg, spec_requested_host(c))
    &&& c.strategy == DeploymentStrategy::Instanced ==> (team_id is Some && nports
        >= spec_ports_needed(c.container->Some_0@))
}

/// Whether a deploy of `slug` can be planned from this catalog and
/// registry.
pub open spec fn spec_deploy_plannable(
    cat: Seq<(String, Challenge)>,
    reg: Seq<HostKeychain>,
    slug: Seq<char>,
    team_id: Option<i32>,
    nports: int,
) -> bool {
    exists|ci: int|
        0 <= ci < cat.len() && (#[trigger] cat[ci]).0@ == slug && spec_challenge_deployable(
            cat[ci].1,
            reg,
            team_id,
            nports,
        )
}

proof fn lemma_unique_slug_entry(cat: Seq<(String, Challenge)>, slug: Seq<char>, c: Challenge)
    requires
        forall|i: int, j: int|
            0 <= i < j < cat.len() ==> (#[trigger] cat[i]).0@ != (#[trigger] cat[j]).0@,
        exists|i: int| 0 <= i < cat.len() && (#[trigger] cat[i]).0@ == slug && cat[i].1 == c,
    ensures
        forall|i: int| 0 <= i < cat.len() && (#[trigger] cat[i]).0@ == slug ==> cat[i].1 == c,
{
    let w = choose|i: int| 0 <= i < cat.len() && (#[trigger] cat[i]).0@ == slug && cat[i].1 == c;
    assert forall|i: int| 0 <= i < cat.len() && (#[trigger] cat[i]).0@ == slug implies cat[i].1
        == c by {
        if i < w {
            assert(cat[i].0@ != cat[w].0@);
        } else if i > w {
            assert(cat[w].0@ != cat[i].0@);
        }
    }
}

proof fn lemma_not_plannable(
    cat: Seq<(String, Challenge)>,
    reg: Seq<HostKeychain>,
    slug: Seq<char>,
    c: Challenge,
    team_id: Option<i32>,
    nports: int,
)
    requires
        forall|i: int, j: int|
            0 <= i < j < cat.len() ==> (#[trigger] cat[i]).0@ != (#[trigger] cat[j]).0@,
        exists|i: int| 0 <= i < cat.len() && (#[trigger] cat[i]).0@ == slug && cat[i].1 == c,
        !spec_challenge_deployable(c, reg, team_id, nports),
    ensures
        !spec_deploy_plannable(cat, reg, slug, team_id, nports),
{
    lemma_unique_slug_entry(cat, slug, c);
    if spec_deploy_plannable(cat, reg, slug, team_id, nports) {
        let ci = choose|ci: int|
            0 <= ci < cat.len() && (#[trigger] cat[ci]).0@ == slug && spec_challenge_deployable(
                cat[ci].1,
                reg,
                team_id,
                nports,
            );
        assert(cat[ci].1 == c);
    }
}

proof fn lemma_ports_needed_nonneg(cs: Seq<(String, Container)>)
    ensures
        spec_ports_needed(cs) >= 0,
    decreases cs.len(),
{
    if cs.len() > 0 {
        lemma_ports_needed_nonneg(cs.drop_last());
        match cs.last().1.expose {
            Some(e) => lemma_tcp_count_nonneg(e@),
            None => (),
        }
    }
}

proof fn lemma_tcp_count_nonneg(e: Seq<(u16, ExposeType)>)
    ensures
        spec_tcp_count(e) >= 0,
    decreases e.len(),
{
    if e.len() > 0 {
        lemma_tcp_count_nonneg(e.drop_last());
    }
}

proof fn lemma_tcp_count_push(e: Seq<(u16, ExposeType)>, x: (u16, ExposeType))
    ensures
        spec_tcp_count(e.push(x)) == spec_tcp_count(e) + if x.1 == ExposeType::Tcp {
            1int
        } else {
            0int
        },
{
    assert(e.push(x).drop_last() =~= e);
    assert(e.push(x).last() == x);
}

proof fn lemma_tcp_prefix_le(e: Seq<(u16, ExposeType)>, i: int)
    requires
        0 <= i <= e.len(),
    ensures
        spec_tcp_count(e.subrange(0, i)) <= spec_tcp_count(e),
    decreases e.len() - i,
{
    if i == e.len() {
        assert(e.subrange(0, e.len() as int) =~= e);
    } else {
        lemma_tcp_count_push(e.subrange(0, i), e[i]);
        assert(e.subrange(0, i).push(e[i]) =~= e.subrange(0, i + 1));
        lemma_tcp_prefix_le(e, i + 1);
    }
}

proof fn lemma_ports_needed_push(cs: Seq<(String, Container)>, x: (String, Container))
    ensures
        spec_ports_needed(cs.push(x)) == spec_ports_needed(cs) + spec_tcp_of_container(x),
{
    assert(cs.push(x).drop_last() =~= cs);
    assert(cs.push(x).last() == x);
}

proof fn lemma_ports_needed_prefix_le(cs: Seq<(String, Container)>, k: int)
    requires
        0 <= k <= cs.len(),
    ensures
        spec_ports_needed(cs.subrange(0, k)) <= spec_ports_needed(cs),
    decreases cs.len() - k,
{
    if k == cs.len() {
        assert(cs.subrange(0, cs.len() as int) =~= cs);
    } else {
        lemma_ports_needed_push(cs.subrange(0, k), cs[k]);
        assert(cs.subrange(0, k).push(cs[k]) =~= cs.subrange(0, k + 1));
        match cs[k].1.expose {
            Some(e) => lemma_tcp_count_nonneg(e@),
            None => (),
        }
        lemma_ports_needed_prefix_le(cs, k + 1);
    }
}

/// Builds the `K=V` environment strings of one container.
fn env_strings(env: &Vec<(String, String)>) -> (r: Vec<String>)
    ensures
        r@.len() == env@.len(),
        forall|i: int|
            0 <= i < env@.len() ==> (#[trigger] r@[i])@ == env@[i].0@ + "="@ + env@[i].1@,
{
    let mut r: Vec<String> = Vec::new();
    let n = env.len();
    let mut i: usize = 0;
    while i < n
        invariant
            i <= n,
            n == env@.len(),
            r@.len() == i,
            forall|j: int|
                0 <= j < i ==> (#[trigger] r@[j])@ == env@[j].0@ + "="@ + env@[j].1@,
        decreases n - i,
    {
        let mut s = env[i].0.clone();
        s.append("=");
        s.append(env[i].1.as_str());
        r.push(s);
        i = i + 1;
    }
    r
}

/// Copies an optional capability list.
fn clone_opt_strvec(v: &Option<Vec<String>>) -> (r: Option<Vec<String>>)
    ensures
        spec_opt_strvec_eqv(r, *v),
{
    match v {
        None => None,
        Some(xs) => {
            let mut out: Vec<String> = Vec::new();
            let n = xs.len();
            let mut i: usize = 0;
            while i < n
                invariant
                    i <= n,
                    n == xs@.len(),
                    out@.len() == i,
                    forall|j: int| 0 <= j < i ==> (#[trigger] out@[j])@ == xs@[j]@,
                decreases n - i,
            {
                out.push(xs[i].clone());
                i = i + 1;
            }
            Some(out)
        },
    }
}

/// Plans one deploy attempt: resolves the spec from the catalog, selects
/// the host keychain, and computes the network name and every container's
/// name, image, environment and host mappings.  Succeeds exactly when
/// the spec exists, has containers, an instanced deploy has a team and
/// enough acquired ephemeral ports, and the keychain exists; the error
/// names which of these failed.
pub fn plan_deploy(
    catalog: &Catalog,
    registry: &KeychainRegistry,
    slug: &str,
    team_id: Option<i32>,
    pub_team_id: Option<&String>,
    ephemeral_ports: &Vec<u16>,
) -> (r: Result<DeployPlan, Error>)
    requires
        catalog.wf(),
        registry.wf(),
    ensures
        (r is Ok) == spec_deploy_plannable(
            catalog@,
            registry@,
            slug@,
            team_id,
            ephemeral_ports@.len() as int,
        ),
        match r {
            Ok(plan) => exists|ci: int, ki: int|
                {
                    &&& 0 <= ci < catalog@.len()
                    &&& 0 <= ki < registry@.len()
                    &&& (#[trigger] catalog@[ci]).0@ == slug@
                    &&& (#[trigger] registry@[ki]).id@ == spec_requested_host(catalog@[ci].1)
                    &&& catalog@[ci].1.strategy == DeploymentStrategy::Instanced ==> team_id is Some
                    &&& spec_plan_ok(
                        plan,
                        catalog@[ci].1,
                        registry@[ki],
                        slug@,
                        team_id,
                        match pub_team_id {
                            Some(t) => Some(t@),
                            None => None,
                        },
                        ephemeral_ports@,
                    )
                },
            Err(e) => {
                &&& e is NotFound <==> !catalog.spec_has(slug@)
                &&& e is NotFound || e is Validation || e is Misconfiguration
            },
        },
{
    let ghost nports = ephemeral_ports@.len() as int;
    let found = catalog.get(slug);
    let c = match found {
        None => {
            proof {
                assert(!spec_deploy_plannable(catalog@, registry@, slug@, team_id, nports));
            }
            return Err(Error::NotFound);
        },
        Some(c) => c,
    };
    proof {
        lemma_unique_slug_entry(catalog@, slug@, *c);
    }
    let containers = match &c.container {
        None => {
            proof {
                lemma_not_plannable(catalog@, registry@, slug@, *c, team_id, nports);
            }
            return Err(
                Error::Validation {
                    message: String::from_str("challenge does not have a container"),
                },
            );
        },
        Some(v) => v,
    };
    let is_instanced = match c.strategy {
        DeploymentStrategy::Instanced => true,
        DeploymentStrategy::Static => false,
    };
    if is_instanced && team_id.is_none() {
        proof {
            lemma_not_plannable(catalog@, registry@, slug@, *c, team_id, nports);
        }
        return Err(
            Error::Validation {
                message: String::from_str("an instanced challenge needs a team"),
            },
        );
    }
    let kc = match registry.lookup(c.host.as_ref()) {
        None => {
            proof {
                lemma_not_plannable(catalog@, registry@, slug@, *c, team_id, nports);
            }
            return Err(
                Error::Misconfiguration {
                    message: String::from_str("no keychain for the requested host"),
                },
            );
        },
        Some(kc) => kc,
    };
    proof {
        let ki = choose|ki: int| 0 <= ki < registry@.len() && #[trigger] registry@[ki] == *kc;
        assert(registry@[ki].id@ == spec_requested_host(*c));
        assert(spec_has_id(registry@, spec_requested_host(*c)));
    }

    let network_name = calculate_network_name(slug, c.strategy, team_id);
    let pull_images = kc.docker.docker_credentials.is_some();
    let mut plans: Vec<ContainerPlan> = Vec::new();
    let n = containers.len();
    let mut k: usize = 0;
    let mut pidx: usize = 0;
    let ghost base = kc.caddy.base@;
    let ghost pub_team: Option<Seq<char>> = match pub_team_id {
        Some(t) => Some(t@),
        None => None,
    };
    while k < n
        invariant
            k <= n,
            n == containers@.len(),
            catalog.wf(),
            registry.wf(),
            exists|ci: int|
                0 <= ci < catalog@.len() && (#[trigger] catalog@[ci]).0@ == slug@ && catalog@[ci].1
                    == *c,
            c.id@ == slug@,
            c.container == Some(*containers),
            spec_has_id(registry@, spec_requested_host(*c)),
            is_instanced ==> pidx <= ephemeral_ports@.len(),
            is_instanced == (c.strategy == DeploymentStrategy::Instanced),
            is_instanced ==> team_id is Some,
            base == kc.caddy.base@,
            pub_team == match pub_team_id {
                Some(t) => Some(t@),
                None => None,
            },
            is_instanced ==> pidx == spec_ports_needed(containers@.subrange(0, k as int)),
            !is_instanced ==> pidx == 0,
            plans@.len() == k,
            forall|j: int|
                0 <= j < k ==> spec_container_plan_ok(
                    #[trigger] plans@[j],
                    containers@[j],
                    slug@,
                    c.strategy,
                    team_id,
                    c.bump_seed,
                    kc.caddy.base@,
                    pub_team,
                    kc.docker.repo@,
                    kc.docker.image_prefix@,
                    ephemeral_ports@,
                    spec_ports_needed(containers@.subrange(0, j)),
                ),
        decreases n - k,
    {
        let ghost offset = spec_ports_needed(containers@.subrange(0, k as int));
        let entry = &containers[k];
        let ct = &entry.0;
        let cd = &entry.1;
        let container_name = calculate_container_name(slug, c.strategy, ct.as_str(), team_id);
        let image = c.image_id(&kc.docker, ct.as_str());
        let env = match &cd.env {
            None => Vec::new(),
            Some(e) => env_strings(e),
        };
        let cap_add = clone_opt_strvec(&cd.cap_add);

        let mut mappings: Vec<(u16, HostMapping)> = Vec::new();
        match &cd.expose {
            None => (),
            Some(expose) => {
                let m = expose.len();
                let mut ei: usize = 0;
                while ei < m
                    invariant
                        ei <= m,
                        m == expose@.len(),
                        k < containers@.len(),
                        catalog.wf(),
                        registry.wf(),
                        exists|ci: int|
                            0 <= ci < catalog@.len() && (#[trigger] catalog@[ci]).0@ == slug@
                                && catalog@[ci].1 == *c,
                        c.container == Some(*containers),
                        spec_has_id(registry@, spec_requested_host(*c)),
                        offset == spec_ports_needed(containers@.subrange(0, k as int)),
                        is_instanced ==> pidx <= ephemeral_ports@.len(),
                        containers@[k as int].1.expose == Some(*expose),
                        containers@[k as int].0 == *ct,
                        is_instanced == (c.strategy == DeploymentStrategy::Instanced),
                        base == kc.caddy.base@,
                        pub_team == match pub_team_id {
                            Some(t) => Some(t@),
                            None => None,
                        },
                        is_instanced ==> pidx == offset + spec_tcp_count(
                            expose@.subrange(0, ei as int),
                        ),
                        !is_instanced ==> pidx == 0,
                        mappings@.len() == ei,
                        forall|i: int|
                            0 <= i < ei ==> spec_mapping_ok(
                                #[trigger] mappings@[i],
                                expose@[i],
                                slug@,
                                ct@,
                                c.bump_seed,
                                kc.caddy.base@,
                                pub_team,
                                c.strategy,
                                ephemeral_ports@,
                                offset + spec_tcp_count(expose@.subrange(0, i)),
                            ),
                    decreases m - ei,
                {
                    let (p, t) = expose[ei];
                    match t {
                        ExposeType::Tcp => {
                            let host_port: u16 = if is_instanced {
                                if pidx >= ephemeral_ports.len() {
                                    proof {
                                        let cs = containers@;
                                        let e = expose@;
                                        lemma_tcp_count_push(
                                            e.subrange(0, ei as int),
                                            e[ei as int],
                                        );
                                        assert(e.subrange(0, ei as int).push(e[ei as int])
                                            =~= e.subrange(0, ei as int + 1));
                                        lemma_tcp_prefix_le(e, ei as int + 1);
                                        lemma_ports_needed_push(
                                            cs.subrange(0, k as int),
                                            cs[k as int],
                                        );
                                        assert(cs.subrange(0, k as int).push(cs[k as int])
                                            =~= cs.subrange(0, k as int + 1));
                                        lemma_ports_needed_prefix_le(cs, k as int + 1);
                                        assert(spec_ports_needed(cs) > ephemeral_ports@.len());
                                        assert(!spec_challenge_deployable(
                                            *c,
                                            registry@,
                                            team_id,
                                            ephemeral_ports@.len() as int,
                                        ));
                                        lemma_not_plannable(
                                            catalog@,
                                            registry@,
                                            slug@,
                                            *c,
                                            team_id,
                                            ephemeral_ports@.len() as int,
                                        );
                                    }
                                    return Err(
                                        Error::Misconfiguration {
                                            message: String::from_str(
                                                "not enough acquired host ports",
                                            ),
                                        },
                                    );
                                }
                                let hp = ephemeral_ports[pidx];
                                pidx = pidx + 1;
                                hp
                            } else {
                                calculate_static_tcp_port(slug, ct.as_str(), p, c.bump_seed)
                            };
                            mappings.push(
                                (p, HostMapping::Tcp { port: host_port, base: kc.caddy.base.clone() }),
                            );
                        },
                        ExposeType::Http => {
                            let sub = calculate_subdomain(
                                slug,
                                match pub_team_id {
                                    Some(t) => Some(t.as_str()),
                                    None => None,
                                },
                                p,
                            );
                            mappings.push(
                                (p, HostMapping::Http { subdomain: sub, base: kc.caddy.base.clone() }),
                            );
                        },
                    }
                    proof {
                        lemma_tcp_count_push(expose@.subrange(0, ei as int), expose@[ei as int]);
                        assert(expose@.subrange(0, ei as int).push(expose@[ei as int])
                            =~= expose@.subrange(0, ei as int + 1));
                    }
                    ei = ei + 1;
                }
                proof {
                    assert(expose@.subrange(0, m as int) =~= expose@);
                }
            },
        }

        let plan = ContainerPlan {
            ct: ct.clone(),
            container_name,
            image,
            env,
            cap_add,
            privileged: cd.privileged,
            cpu: cd.limits.cpu,
            mem: cd.limits.mem,
            mappings,
        };
        proof {
            assert(spec_container_plan_ok(
                plan,
                containers@[k as int],
                slug@,
                c.strategy,
                team_id,
                c.bump_seed,
                kc.caddy.base@,
                pub_team,
                kc.docker.repo@,
                kc.docker.image_prefix@,
                ephemeral_ports@,
                offset,
            ));
        }
        plans.push(plan);
        proof {
            lemma_ports_needed_push(containers@.subrange(0, k as int), containers@[k as int]);
            assert(containers@.subrange(0, k as int).push(containers@[k as int])
                =~= containers@.subrange(0, k as int + 1));
        }
        k = k + 1;
    }

    let plan = DeployPlan { network_name, pull_images, containers: plans };
    proof {
        assert(containers@.subrange(0, n as int) =~= containers@);
        let ci = choose|ci: int|
            0 <= ci < catalog@.len() && (#[trigger] catalog@[ci]).0@ == slug@ && catalog@[ci].1
                == *c;
        let ki = choose|ki: int| 0 <= ki < registry@.len() && #[trigger] registry@[ki] == *kc;
        assert(registry@[ki].id@ == spec_requested_host(*c));
        if is_instanced {
            assert(pidx == spec_ports_needed(containers@));
        }
        assert(spec_challenge_deployable(*c, registry@, team_id, nports));
        assert(spec_plan_ok(
            plan,
            catalog@[ci].1,
            registry@[ki],
            slug@,
            team_id,
            match pub_team_id {
                Some(t) => Some(t@),
                None => None,
            },
            ephemeral_ports@,
        ));
        assert(spec_deploy_plannable(catalog@, registry@, slug@, team_id, nports));
    }
    Ok(plan)
}


/// The lifetime an instanced deploy gets: the spec's override, else the
/// request's, else the server default.
pub open spec fn spec_effective_lifetime(
    instance_lifetime: Option<u64>,
    request_lifetime: Option<u64>,
    default_lifetime: u64,
) -> u64 {
    match instance_lifetime {
        Some(l) => l,
        None => match request_lifetime {
            Some(l) => l,
            None => default_lifetime,
        },
    }
}

/// Computes the lease of a deploy: none for a static one, and the
/// current time plus the effective lifetime for an instanced one.
pub fn compute_expiry(
    strategy: DeploymentStrategy,
    instance_lifetime: Option<u64>,
    request_lifetime: Option<u64>,
    default_lifetime: u64,
    now: i64,
) -> (r: Option<i64>)
    requires
        strategy == DeploymentStrategy::Instanced ==> 0 <= now && spec_effective_lifetime(
            instance_lifetime,
            request_lifetime,
            default_lifetime,
        ) <= (i64::MAX - now) as u64,
    ensures
        r == match strategy {
            DeploymentStrategy::Static => None::<i64>,
            DeploymentStrategy::Instanced => Some(
                (now + spec_effective_lifetime(
                    instance_lifetime,
                    request_lifetime,
                    default_lifetime,
                )) as i64,
            ),
        },
{
    match strategy {
        DeploymentStrategy::Static => None,
        DeploymentStrategy::Instanced => {
            let lifetime: u64 = match instance_lifetime {
                Some(l) => l,
                None => match request_lifetime {
                    Some(l) => l,
                    None => default_lifetime,
                },
            };
            Some(now + lifetime as i64)
        },
    }
}

/// Whether recorded data is exactly what a plan describes: one entry
/// per planned container, carrying its name and its mappings.
pub open spec fn spec_data_of_plan(
    data: Seq<(String, DeploymentDataS)>,
    plan: DeployPlan,
) -> bool {
    &&& data.len() == plan.containers@.len()
    &&& forall|k: int|
        0 <= k < data.len() ==> {
            &&& (#[trigger] data[k]).0@ == plan.containers@[k].ct@
            &&& data[k].1.container_id@ == plan.containers@[k].container_name@
            &&& crate::row::spec_ports_eqv(data[k].1.ports@, plan.containers@[k].mappings@)
        }
}

/// Assembles the row data a successful deploy records: for each planned
/// container, its name and the public mapping of its ports.
pub fn deployment_data_of(plan: &DeployPlan) -> (data: DeploymentData)
    ensures
        spec_data_of_plan(data@, *plan),
{
    let mut data: DeploymentData = Vec::new();
    let n = plan.containers.len();
    let mut k: usize = 0;
    while k < n
        invariant
            k <= n,
            n == plan.containers@.len(),
            data@.len() == k,
            forall|j: int|
                0 <= j < k ==> {
                    &&& (#[trigger] data@[j]).0@ == plan.containers@[j].ct@
                    &&& data@[j].1.container_id@ == plan.containers@[j].container_name@
                    &&& crate::row::spec_ports_eqv(data@[j].1.ports@, plan.containers@[j].mappings@)
                },
        decreases n - k,
    {
        let cp = &plan.containers[k];
        data.push(
            (
                cp.ct.clone(),
                DeploymentDataS {
                    container_id: cp.container_name.clone(),
                    ports: crate::row::clone_ports(&cp.mappings),
                },
            ),
        );
        k = k + 1;
    }
    data
}

/// The public host name of an HTTP route: `{subdomain}.{base}`.
pub fn route_host(subdomain: &str, base: &str) -> (r: String)
    ensures
        r@ == subdomain@ + "."@ + base@,
{
    let mut s = subdomain.to_owned();
    s.append(".");
    s.append(base);
    s
}

/// The upstream address of an HTTP route: `{ip}:{port}`.
pub fn route_upstream(ip: &str, port: u16) -> (r: String)
    ensures
        r@ == ip@ + ":"@ + crate::numfmt::spec_dec(port as int),
{
    let mut s = ip.to_owned();
    s.append(":");
    s.append(crate::numfmt::u16_to_dec(port).as_str());
    s
}

/// Relies on nanoid::format with its default rng and URL-safe alphabet:
/// the id has exactly the requested number of characters; its content is
/// random.
#[verifier::external_body]
fn fresh_public_id() -> (r: String)
    ensures
        r@.len() == 21,
{
    nanoid::format(nanoid::rngs::default, &nanoid::alphabet::SAFE, 21)
}

/// The deploy handler's transactional step: claims the (challenge,
/// team) slot under a fresh public id.  An occupied slot is answered
/// `AlreadyDeployed` with the occupying row's public id; on success the
/// pending row is returned, ready to be emitted (it carries no data
/// yet, so it is already sanitized).
pub fn handle_deploy(store: &mut crate::store::DeploymentStore, req: &DeployRequest, now: i64) -> (r:
    Result<crate::row::ChallengeDeployment, Error>)
    requires
        old(store).wf(),
    ensures
        final(store).wf(),
        r is Err ==> final(store)@ == old(store)@,
        match r {
            Ok(row) => crate::store::spec_claim_ok(
                old(store)@,
                final(store)@,
                row,
                req.challenge_id,
                req.team_id,
                now,
            ) && row.public_id@.len() == 21,
            Err(e) => match e {
                Error::AlreadyDeployed { public_id: pid } => exists|i: int|
                    0 <= i < old(store)@.len() && (#[trigger] old(store)@[i]).spec_active()
                        && crate::store::spec_same_slot(old(store)@[i], req.challenge_id, req.team_id)
                        && old(store)@[i].public_id@ == pid@,
                Error::Database { .. } => !crate::store::spec_has_active(
                    old(store)@,
                    req.challenge_id,
                    req.team_id,
                ),
                _ => false,
            },
        },
        crate::store::spec_has_active(old(store)@, req.challenge_id, req.team_id) <==> (
        r matches Err(Error::AlreadyDeployed { .. })),
{
    let public_id = fresh_public_id();
    store.claim(req.challenge_id, req.team_id, public_id, now)
}

/// The destroy handler's lookup: the idempotent answer to a destroy
/// request.  No live row for the slot is a success and a no-op; a live
/// row is handed on (by id) to the teardown path.
pub fn handle_destroy(
    store: &crate::store::DeploymentStore,
    challenge_id: i32,
    team_id: Option<i32>,
) -> (r: Option<i32>)
    ensures
        match r {
            Some(row_id) => exists|i: int|
                0 <= i < store@.len() && (#[trigger] store@[i]).id == row_id
                    && store@[i].spec_active() && crate::store::spec_same_slot(
                    store@[i],
                    challenge_id,
                    team_id,
                ),
            None => !crate::store::spec_has_active(store@, challenge_id, team_id),
        },
{
    match store.find_active(challenge_id, team_id) {
        None => None,
        Some(row) => Some(row.id),
    }
}

/// The read handler: the row under a public id, sanitized.
pub fn handle_get(store: &crate::store::DeploymentStore, public_id: &str) -> (r: Result<
    crate::row::ChallengeDeployment,
    Error,
>)
    ensures
        match r {
            Ok(row) => exists|i: int|
                0 <= i < store@.len() && (#[trigger] store@[i]).public_id@ == public_id@
                    && crate::row::spec_sanitized_row(store@[i], row),
            Err(e) => e is NotFound && !crate::store::spec_public_id_taken(store@, public_id@),
        },
{
    match store.find_by_public_id(public_id) {
        None => Err(Error::NotFound),
        Some(row) => Ok(row.sanitized_copy()),
    }
}



/// Law: a static deploy's TCP host ports are a pure function of the
/// spec alone.  Any two computed mappings for the same exposure of one
/// (slug, container, bump seed) — one before and one after a catalog
/// reload, or across a destroy and a redeploy — carry the same
/// deterministic host port, whatever teams, proxy bases or acquired
/// ephemeral ports differ between the two attempts.
pub proof fn lemma_static_port_stable_across_deploys(
    m1: (u16, HostMapping),
    m2: (u16, HostMapping),
    e: (u16, ExposeType),
    slug: Seq<char>,
    ct: Seq<char>,
    bump: u64,
    base1: Seq<char>,
    base2: Seq<char>,
    team1: Option<Seq<char>>,
    team2: Option<Seq<char>>,
    ports1: Seq<u16>,
    ports2: Seq<u16>,
    pidx1: int,
    pidx2: int,
)
    requires
        e.1 == ExposeType::Tcp,
        spec_mapping_ok(
            m1,
            e,
            slug,
            ct,
            bump,
            base1,
            team1,
            DeploymentStrategy::Static,
            ports1,
            pidx1,
        ),
        spec_mapping_ok(
            m2,
            e,
            slug,
            ct,
            bump,
            base2,
            team2,
            DeploymentStrategy::Static,
            ports2,
            pidx2,
        ),
    ensures
        (m1.1 matches HostMapping::Tcp { port: hp1, .. } && (m2.1 matches HostMapping::Tcp {
            port: hp2,
            ..
        } && hp1 == hp2 && hp1 == spec_static_port(slug, ct, e.0, bump))),
{
}

/// The teardown plan of one live deployment: the proxy routes to
/// delete, the containers to force-remove, and the network to remove,
/// in that order.
#[derive(Debug)]
pub struct TeardownPlan {
    pub routes: Vec<String>,
    pub containers: Vec<String>,
    pub network: String,
}

/// The proxy host names recorded in one container's port map.
pub open spec fn spec_http_routes_of_ports(
    ports: Seq<(u16, HostMapping)>,
    base: Seq<char>,
) -> Seq<Seq<char>>
    decreases ports.len(),
{
    if ports.len() == 0 {
        Seq::empty()
    } else {
        spec_http_routes_of_ports(ports.drop_last(), base) + match ports.last().1 {
            HostMapping::Http { subdomain, .. } => seq![subdomain@ + "."@ + base],
            _ => Seq::empty(),
        }
    }
}

/// The first recorded data entry under a container name.
pub open spec fn spec_data_first(
    data: Seq<(String, DeploymentDataS)>,
    ct: Seq<char>,
) -> Option<DeploymentDataS>
    decreases data.len(),
{
    if data.len() == 0 {
        None
    } else if data[0].0@ == ct {
        Some(data[0].1)
    } else {
        spec_data_first(data.subrange(1, data.len() as int), ct)
    }
}

/// The proxy host names to delete for a teardown: for each container of
/// the spec, the HTTP routes its recorded data holds.
pub open spec fn spec_routes_of_containers(
    ctrs: Seq<(String, Container)>,
    data: Seq<(String, DeploymentDataS)>,
    base: Seq<char>,
) -> Seq<Seq<char>>
    decreases ctrs.len(),
{
    if ctrs.len() == 0 {
        Seq::empty()
    } else {
        spec_routes_of_containers(ctrs.drop_last(), data, base) + match spec_data_first(
            data,
            ctrs.last().0@,
        ) {
            Some(dd) => spec_http_routes_of_ports(dd.ports@, base),
            None => Seq::empty(),
        }
    }
}

/// Whether teardown has remote cleanup to compute for this row: it
/// recorded data, and the catalog still holds a spec with containers
/// under the slug.
pub open spec fn spec_teardown_has_cleanup(
    cat: Seq<(String, Challenge)>,
    slug: Seq<char>,
    row: crate::row::ChallengeDeployment,
) -> bool {
    &&& row.data is Some
    &&& exists|ci: int|
        0 <= ci < cat.len() && (#[trigger] cat[ci]).0@ == slug && cat[ci].1.container is Some
}

/// A teardown blocked before any row is touched: there is cleanup to
/// compute, the spec is instanced, and the row carries no team.
pub open spec fn spec_teardown_team_missing(
    cat: Seq<(String, Challenge)>,
    slug: Seq<char>,
    row: crate::row::ChallengeDeployment,
) -> bool {
    &&& row.data is Some
    &&& exists|ci: int|
        0 <= ci < cat.len() && (#[trigger] cat[ci]).0@ == slug && cat[ci].1.container is Some
            && cat[ci].1.strategy == DeploymentStrategy::Instanced && row.team_id is None
}

/// A teardown blocked before any row is touched: there is cleanup to
/// compute, the team (when needed) is present, but the spec's host has
/// no keychain.
pub open spec fn spec_teardown_keychain_missing(
    cat: Seq<(String, Challenge)>,
    reg: Seq<HostKeychain>,
    slug: Seq<char>,
    row: crate::row::ChallengeDeployment,
) -> bool {
    &&& row.data is Some
    &&& exists|ci: int|
        0 <= ci < cat.len() && (#[trigger] cat[ci]).0@ == slug && cat[ci].1.container is Some && !(
        cat[ci].1.strategy == DeploymentStrategy::Instanced && row.team_id is None)
            && !spec_has_id(reg, spec_requested_host(cat[ci].1))
}

proof fn lemma_unique_row(
    rows: Seq<crate::row::ChallengeDeployment>,
    row_id: i32,
    row: crate::row::ChallengeDeployment,
)
    requires
        forall|i: int, j: int|
            0 <= i < j < rows.len() ==> (#[trigger] rows[i]).id != (#[trigger] rows[j]).id,
        exists|i: int| 0 <= i < rows.len() && #[trigger] rows[i] == row,
        row.id == row_id,
    ensures
        forall|j: int| 0 <= j < rows.len() && (#[trigger] rows[j]).id == row_id ==> rows[j] == row,
{
    let w = choose|i: int| 0 <= i < rows.len() && #[trigger] rows[i] == row;
    assert forall|j: int| 0 <= j < rows.len() && (#[trigger] rows[j]).id == row_id implies rows[j]
        == row by {
        if j < w {
            assert(rows[j].id != rows[w].id);
        } else if j > w {
            assert(rows[w].id != rows[j].id);
        }
    }
}

/// What a teardown plan must be for the found challenge, keychain and
/// row: the deterministic network and container names, and exactly the
/// recorded HTTP routes.
pub open spec fn spec_teardown_ok(
    plan: TeardownPlan,
    c: Challenge,
    kc: HostKeychain,
    slug: Seq<char>,
    row: crate::row::ChallengeDeployment,
) -> bool {
    &&& plan.network@ == spec_network_name(slug, c.strategy, row.team_id)
    &&& c.container matches Some(v) && plan.containers@.len() == v@.len() && (forall|k: int|
        0 <= k < v@.len() ==> (#[trigger] plan.containers@[k])@ == spec_container_name(
            slug,
            c.strategy,
            v@[k].0@,
            row.team_id,
        ))
    &&& row.data matches Some(d) && plan.routes@.map_values(|s: String| s@)
        =~= spec_routes_of_containers(c.container->Some_0@, d@, kc.caddy.base@)
}

proof fn lemma_http_routes_push(ports: Seq<(u16, HostMapping)>, base: Seq<char>, x: (u16, HostMapping))
    ensures
        spec_http_routes_of_ports(ports.push(x), base) == spec_http_routes_of_ports(ports, base)
            + match x.1 {
            HostMapping::Http { subdomain, .. } => seq![subdomain@ + "."@ + base],
            _ => Seq::empty(),
        },
{
    assert(ports.push(x).drop_last() =~= ports);
    assert(ports.push(x).last() == x);
}

proof fn lemma_routes_containers_push(
    ctrs: Seq<(String, Container)>,
    data: Seq<(String, DeploymentDataS)>,
    base: Seq<char>,
    x: (String, Container),
)
    ensures
        spec_routes_of_containers(ctrs.push(x), data, base) == spec_routes_of_containers(
            ctrs,
            data,
            base,
        ) + match spec_data_first(data, x.0@) {
            Some(dd) => spec_http_routes_of_ports(dd.ports@, base),
            None => Seq::empty(),
        },
{
    assert(ctrs.push(x).drop_last() =~= ctrs);
    assert(ctrs.push(x).last() == x);
}

proof fn lemma_data_first_at(data: Seq<(String, DeploymentDataS)>, ct: Seq<char>, i: int)
    requires
        0 <= i < data.len(),
        forall|j: int| 0 <= j < i ==> (#[trigger] data[j]).0@ != ct,
        data[i].0@ == ct,
    ensures
        spec_data_first(data, ct) == Some(data[i].1),
    decreases i,
{
    if i > 0 {
        let tail = data.subrange(1, data.len() as int);
        assert(data[0].0@ != ct);
        assert forall|j: int| 0 <= j < i - 1 implies (#[trigger] tail[j]).0@ != ct by {
            assert(tail[j] == data[j + 1]);
        }
        assert(tail[i - 1] == data[i]);
        lemma_data_first_at(tail, ct, i - 1);
    }
}

proof fn lemma_data_first_none(data: Seq<(String, DeploymentDataS)>, ct: Seq<char>)
    requires
        forall|j: int| 0 <= j < data.len() ==> (#[trigger] data[j]).0@ != ct,
    ensures
        spec_data_first(data, ct) is None,
    decreases data.len(),
{
    if data.len() > 0 {
        let tail = data.subrange(1, data.len() as int);
        assert forall|j: int| 0 <= j < tail.len() implies (#[trigger] tail[j]).0@ != ct by {
            assert(tail[j] == data[j + 1]);
        }
        lemma_data_first_none(tail, ct);
    }
}

/// Finds the first recorded data entry of a container.
fn data_first<'a>(data: &'a DeploymentData, ct: &str) -> (r: Option<&'a DeploymentDataS>)
    ensures
        match r {
            Some(dd) => spec_data_first(data@, ct@) == Some(*dd),
            None => spec_data_first(data@, ct@) is None,
        },
{
    let n = data.len();
    let mut i: usize = 0;
    while i < n
        invariant
            i <= n,
            n == data@.len(),
            forall|j: int| 0 <= j < i ==> (#[trigger] data@[j]).0@ != ct@,
        decreases n - i,
    {
        if crate::ident::str_eq(data[i].0.as_str(), ct) {
            proof {
                lemma_data_first_at(data@, ct@, i as int);
            }
            return Some(&data[i].1);
        }
        i = i + 1;
    }
    proof {
        lemma_data_first_none(data@, ct@);
    }
    None
}

/// Tears one live deployment down.  It succeeds exactly on a live,
/// deployed row whose teardown nothing blocks; a missing row, a row
/// already destroyed, an in-flight deploy, an instanced row without a
/// team and a missing keychain each answer their own error, if and only
/// if.  On success the row is marked destroyed first — freeing the slot
/// takes priority over remote consistency — and the returned plan is
/// the remote cleanup to perform, absent exactly when there is none to
/// compute.
pub fn destroy_challenge(
    store: &mut crate::store::DeploymentStore,
    catalog: &Catalog,
    registry: &KeychainRegistry,
    row_id: i32,
    slug: &str,
    now: i64,
) -> (r: Result<Option<TeardownPlan>, Error>)
    requires
        old(store).wf(),
        catalog.wf(),
        registry.wf(),
        forall|i: int|
            0 <= i < old(store)@.len() && (#[trigger] old(store)@[i]).id == row_id ==> now >= old(
                store,
            )@[i].created_at,
    ensures
        final(store).wf(),
        r is Err ==> final(store)@ == old(store)@,
        match r {
            Ok(opt) => exists|i: int|
                #![trigger old(store)@[i]]
                {
                    &&& 0 <= i < old(store)@.len()
                    &&& old(store)@[i].id == row_id
                    &&& old(store)@[i].deployed
                    &&& crate::store::spec_destroy_at(old(store)@, final(store)@, i, now)
                    &&& match opt {
                        None => !spec_teardown_has_cleanup(catalog@, slug@, old(store)@[i]),
                        Some(plan) => exists|ci: int, ki: int|
                            {
                                &&& 0 <= ci < catalog@.len()
                                &&& 0 <= ki < registry@.len()
                                &&& (#[trigger] catalog@[ci]).0@ == slug@
                                &&& (#[trigger] registry@[ki]).id@ == spec_requested_host(
                                    catalog@[ci].1,
                                )
                                &&& spec_teardown_ok(
                                    plan,
                                    catalog@[ci].1,
                                    registry@[ki],
                                    slug@,
                                    old(store)@[i],
                                )
                            },
                    }
                },
            Err(e) => e is NotFound || e is AlreadyDestroyed || e is NotYetDeployed
                || e is Validation || e is Misconfiguration,
        },
        (r matches Err(Error::NotFound)) <==> (forall|j: int|
            0 <= j < old(store)@.len() ==> (#[trigger] old(store)@[j]).id != row_id),
        (r matches Err(Error::AlreadyDestroyed)) <==> exists|j: int|
            0 <= j < old(store)@.len() && (#[trigger] old(store)@[j]).id == row_id && !old(
                store,
            )@[j].spec_active(),
        (r matches Err(Error::NotYetDeployed)) <==> exists|j: int|
            0 <= j < old(store)@.len() && (#[trigger] old(store)@[j]).id == row_id && old(
                store,
            )@[j].spec_active() && !old(store)@[j].deployed,
        (r matches Err(Error::Validation { .. })) <==> exists|j: int|
            0 <= j < old(store)@.len() && (#[trigger] old(store)@[j]).id == row_id && old(
                store,
            )@[j].spec_active() && old(store)@[j].deployed && spec_teardown_team_missing(
                catalog@,
                slug@,
                old(store)@[j],
            ),
        (r matches Err(Error::Misconfiguration { .. })) <==> exists|j: int|
            0 <= j < old(store)@.len() && (#[trigger] old(store)@[j]).id == row_id && old(
                store,
            )@[j].spec_active() && old(store)@[j].deployed && spec_teardown_keychain_missing(
                catalog@,
                registry@,
                slug@,
                old(store)@[j],
            ),
        (r is Ok) <==> exists|j: int|
            0 <= j < old(store)@.len() && (#[trigger] old(store)@[j]).id == row_id && old(
                store,
            )@[j].spec_active() && old(store)@[j].deployed && !spec_teardown_team_missing(
                catalog@,
                slug@,
                old(store)@[j],
            ) && !spec_teardown_keychain_missing(catalog@, registry@, slug@, old(store)@[j]),
{
    let ghost pre = store@;
    let plan_opt: Option<TeardownPlan> = {
        let row = match store.find_by_id(row_id) {
            None => {
                return Err(Error::NotFound);
            },
            Some(r) => r,
        };
        proof {
            let w = choose|i: int| 0 <= i < store@.len() && #[trigger] store@[i] == *row;
            assert(store@[w].id == row_id);
            lemma_unique_row(store@, row_id, *row);
        }
        let ghost the_row = *row;
        if row.destroyed_at.is_some() {
            return Err(Error::AlreadyDestroyed);
        }
        if !row.deployed {
            return Err(Error::NotYetDeployed);
        }

        let data = match &row.data {
            None => {
                proof {
                    assert(!spec_teardown_has_cleanup(catalog@, slug@, the_row));
                    assert(!spec_teardown_team_missing(catalog@, slug@, the_row));
                    assert(!spec_teardown_keychain_missing(catalog@, registry@, slug@, the_row));
                }
                None
            },
            Some(data) => {
                match catalog.get(slug) {
                    None => {
                        proof {
                            assert(!spec_teardown_has_cleanup(catalog@, slug@, the_row));
                            assert(!spec_teardown_team_missing(catalog@, slug@, the_row));
                            assert(!spec_teardown_keychain_missing(
                                catalog@,
                                registry@,
                                slug@,
                                the_row,
                            ));
                        }
                        None
                    },
                    Some(c) => {
                        proof {
                            lemma_unique_slug_entry(catalog@, slug@, *c);
                        }
                        match &c.container {
                            None => {
                                proof {
                                    assert(!spec_teardown_has_cleanup(catalog@, slug@, the_row));
                                    assert(!spec_teardown_team_missing(catalog@, slug@, the_row));
                                    assert(!spec_teardown_keychain_missing(
                                        catalog@,
                                        registry@,
                                        slug@,
                                        the_row,
                                    ));
                                }
                                None
                            },
                            Some(containers) => Some((data, c, containers)),
                        }
                    },
                }
            },
        };
        match data {
            None => None,
            Some((data, c, containers)) => {
                let is_instanced = match c.strategy {
                    DeploymentStrategy::Instanced => true,
                    DeploymentStrategy::Static => false,
                };
                if is_instanced && row.team_id.is_none() {
                    proof {
                        assert(spec_teardown_team_missing(catalog@, slug@, the_row));
                        assert(!spec_teardown_keychain_missing(
                            catalog@,
                            registry@,
                            slug@,
                            the_row,
                        ));
                    }
                    return Err(
                        Error::Validation {
                            message: String::from_str("an instanced row without a team"),
                        },
                    );
                }
                let kc = match registry.lookup(c.host.as_ref()) {
                    None => {
                        proof {
                            assert(!spec_teardown_team_missing(catalog@, slug@, the_row));
                            assert(spec_teardown_keychain_missing(
                                catalog@,
                                registry@,
                                slug@,
                                the_row,
                            ));
                        }
                        return Err(
                            Error::Misconfiguration {
                                message: String::from_str("no keychain for the requested host"),
                            },
                        );
                    },
                    Some(kc) => kc,
                };
                proof {
                    let ki = choose|ki: int|
                        0 <= ki < registry@.len() && #[trigger] registry@[ki] == *kc;
                    assert(registry@[ki].id@ == spec_requested_host(*c));
                    assert(spec_has_id(registry@, spec_requested_host(*c)));
                    assert(!spec_teardown_team_missing(catalog@, slug@, the_row));
                    assert(!spec_teardown_keychain_missing(catalog@, registry@, slug@, the_row));
                }
                let ghost base = kc.caddy.base@;
                let mut routes: Vec<String> = Vec::new();
                let mut names: Vec<String> = Vec::new();
                let n = containers.len();
                let mut k: usize = 0;
                while k < n
                    invariant
                        k <= n,
                        n == containers@.len(),
                        base == kc.caddy.base@,
                        is_instanced == (c.strategy == DeploymentStrategy::Instanced),
                        is_instanced ==> row.team_id is Some,
                        names@.len() == k,
                        forall|j: int|
                            0 <= j < k ==> (#[trigger] names@[j])@ == spec_container_name(
                                slug@,
                                c.strategy,
                                containers@[j].0@,
                                row.team_id,
                            ),
                        routes@.map_values(|s: String| s@) =~= spec_routes_of_containers(
                            containers@.subrange(0, k as int),
                            data@,
                            base,
                        ),
                    decreases n - k,
                {
                    let ct = &containers[k].0;
                    names.push(
                        calculate_container_name(slug, c.strategy, ct.as_str(), row.team_id),
                    );
                    match data_first(data, ct.as_str()) {
                        None => {
                            proof {
                                lemma_routes_containers_push(
                                    containers@.subrange(0, k as int),
                                    data@,
                                    base,
                                    containers@[k as int],
                                );
                                assert(containers@.subrange(0, k as int).push(
                                    containers@[k as int],
                                ) =~= containers@.subrange(0, k as int + 1));
                            }
                        },
                        Some(dd) => {
                            let m = dd.ports.len();
                            let mut ei: usize = 0;
                            while ei < m
                                invariant
                                    ei <= m,
                                    m == dd.ports@.len(),
                                    base == kc.caddy.base@,
                                    k < containers@.len(),
                                    spec_data_first(data@, containers@[k as int].0@) == Some(*dd),
                                    containers@[k as int].0 == *ct,
                                    routes@.map_values(|s: String| s@)
                                        =~= spec_routes_of_containers(
                                        containers@.subrange(0, k as int),
                                        data@,
                                        base,
                                    ) + spec_http_routes_of_ports(
                                        dd.ports@.subrange(0, ei as int),
                                        base,
                                    ),
                                decreases m - ei,
                            {
                                let ghost before = routes@;
                                match &dd.ports[ei].1 {
                                    HostMapping::Http { subdomain, .. } => {
                                        routes.push(
                                            route_host(subdomain.as_str(), kc.caddy.base.as_str()),
                                        );
                                        proof {
                                            assert(routes@.map_values(|s: String| s@)
                                                =~= before.map_values(|s: String| s@).push(
                                                routes@.last()@,
                                            ));
                                        }
                                    },
                                    HostMapping::Tcp { .. } => (),
                                }
                                proof {
                                    lemma_http_routes_push(
                                        dd.ports@.subrange(0, ei as int),
                                        base,
                                        dd.ports@[ei as int],
                                    );
                                    assert(dd.ports@.subrange(0, ei as int).push(
                                        dd.ports@[ei as int],
                                    ) =~= dd.ports@.subrange(0, ei as int + 1));
                                }
                                ei = ei + 1;
                            }
                            proof {
                                assert(dd.ports@.subrange(0, m as int) =~= dd.ports@);
                                lemma_routes_containers_push(
                                    containers@.subrange(0, k as int),
                                    data@,
                                    base,
                                    containers@[k as int],
                                );
                                assert(containers@.subrange(0, k as int).push(
                                    containers@[k as int],
                                ) =~= containers@.subrange(0, k as int + 1));
                            }
                        },
                    }
                    k = k + 1;
                }
                proof {
                    assert(containers@.subrange(0, n as int) =~= containers@);
                }
                let network = calculate_network_name(slug, c.strategy, row.team_id);
                Some(TeardownPlan { routes, containers: names, network })
            },
        }
    };

    match store.mark_destroyed(row_id, now) {
        Ok(_) => Ok(plan_opt),
        Err(e) => {
            // The row was found live above and nothing has touched the
            // store since, so the mark cannot fail.
            proof {
                assert(false);
            }
            Err(e)
        },
    }
}


} // verus!
