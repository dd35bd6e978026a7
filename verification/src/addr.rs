//! The address computer: deterministic TCP ports and HTTP subdomains for
//! static deployments, and the deterministic container and network names
//! under which resources are created and later reclaimed.

use vstd::prelude::*;

use crate::challenge::DeploymentStrategy;
use crate::digest::{crockford_lower_of, sha256, sha256_of};
use crate::numfmt::{i32_to_dec, spec_dec, spec_dec_signed, u16_to_dec, u64_to_dec};

verus! {

/// The string hashed for a static TCP port:
/// `{slug}/{container_name}/{container_port},{bump_seed}`.
pub open spec fn spec_port_preimage(
    slug: Seq<char>,
    ct: Seq<char>,
    port: u16,
    bump: u64,
) -> Seq<char> {
    slug + "/"@ + ct + "/"@ + spec_dec(port as int) + ","@ + spec_dec(bump as int)
}

/// The deterministic host port of a static TCP exposure: the first two
/// digest bytes read as a little-endian integer, moved past the
/// privileged range by 1025, saturating at 65535.
pub open spec fn spec_static_port(slug: Seq<char>, ct: Seq<char>, port: u16, bump: u64) -> u16 {
    let h = sha256_of(spec_port_preimage(slug, ct, port, bump));
    let n = h[0] + 256 * h[1];
    if n + 1025 > 65535 {
        65535u16
    } else {
        (n + 1025) as u16
    }
}

/// Computes the deterministic host port for a static TCP exposure.
pub fn calculate_static_tcp_port(chall_id: &str, container_name: &str, port: u16, bump: u64) -> (p:
    u16)
    ensures
        p == spec_static_port(chall_id@, container_name@, port, bump),
{
    let mut s = chall_id.to_owned();
    s.append("/");
    s.append(container_name);
    s.append("/");
    s.append(u16_to_dec(port).as_str());
    s.append(",");
    s.append(u64_to_dec(bump).as_str());
    assert(s@ == spec_port_preimage(chall_id@, container_name@, port, bump));
    let h = sha256(s.as_str());
    let n: u32 = h[0] as u32 + 256 * (h[1] as u32);
    if n + 1025 > 65535 {
        65535
    } else {
        (n + 1025) as u16
    }
}

/// The string hashed for an HTTP subdomain:
/// `{slug}/{public_team_id_or_empty}/{container_port}`.
pub open spec fn spec_subdomain_preimage(
    slug: Seq<char>,
    pub_team_id: Option<Seq<char>>,
    port: u16,
) -> Seq<char> {
    let team = match pub_team_id {
        Some(t) => t,
        None => Seq::empty(),
    };
    slug + "/"@ + team + "/"@ + spec_dec(port as int)
}

/// The deterministic subdomain of an HTTP exposure: the slug, a dash, and
/// the first 40 digest bits in lowercase Crockford base32.
pub open spec fn spec_subdomain(slug: Seq<char>, pub_team_id: Option<Seq<char>>, port: u16) -> Seq<
    char,
> {
    slug + "-"@ + crockford_lower_of(
        sha256_of(spec_subdomain_preimage(slug, pub_team_id, port)).subrange(0, 5),
    )
}

/// Computes the deterministic subdomain for an HTTP exposure.  The
/// encoded suffix is eight characters — 40 digest bits, five per
/// character — so the whole subdomain is the slug, a dash, and eight
/// more characters.
pub fn calculate_subdomain(chall_id: &str, pub_team_id: Option<&str>, port: u16) -> (r: String)
    ensures
        r@ == spec_subdomain(
            chall_id@,
            match pub_team_id {
                Some(t) => Some(t@),
                None => None,
            },
            port,
        ),
        r@.len() == chall_id@.len() + 9,
{
    let mut s = chall_id.to_owned();
    s.append("/");
    match pub_team_id {
        Some(t) => s.append(t),
        None => (),
    }
    s.append("/");
    s.append(u16_to_dec(port).as_str());
    assert(s@ == spec_subdomain_preimage(
        chall_id@,
        match pub_team_id {
            Some(t) => Some(t@),
            None => None,
        },
        port,
    ));
    let h = sha256(s.as_str());
    let mut head: Vec<u8> = Vec::new();
    let mut i: usize = 0;
    while i < 5
        invariant
            i <= 5,
            h@.len() == 32,
            head@ =~= h@.subrange(0, i as int),
        decreases 5 - i,
    {
        head.push(h[i]);
        i = i + 1;
    }
    let mut r = chall_id.to_owned();
    r.append("-");
    let suffix = crate::digest::base32_crockford_lower(&head);
    r.append(suffix.as_str());
    proof {
        reveal_strlit("-");
        assert(suffix@.len() == 8);
    }
    r
}

/// The deterministic name of one deployed container:
/// `{slug}-container-{ct}` for a static deployment and
/// `{slug}-team-{team_id}-container-{ct}` for an instanced one.
pub open spec fn spec_container_name(
    slug: Seq<char>,
    strategy: DeploymentStrategy,
    ct: Seq<char>,
    team_id: Option<i32>,
) -> Seq<char> {
    match strategy {
        DeploymentStrategy::Static => slug + "-container-"@ + ct,
        DeploymentStrategy::Instanced => slug + "-team-"@ + spec_dec_signed(
            team_id->Some_0 as int,
        ) + "-container-"@ + ct,
    }
}

/// Computes the deterministic container name.
pub fn calculate_container_name(
    chall_id: &str,
    strategy: DeploymentStrategy,
    ct: &str,
    team_id: Option<i32>,
) -> (r: String)
    requires
        strategy == DeploymentStrategy::Instanced ==> team_id is Some,
    ensures
        r@ == spec_container_name(chall_id@, strategy, ct@, team_id),
{
    match strategy {
        DeploymentStrategy::Static => {
            let mut s = chall_id.to_owned();
            s.append("-container-");
            s.append(ct);
            s
        },
        DeploymentStrategy::Instanced => {
            let mut s = chall_id.to_owned();
            s.append("-team-");
            let tid = match team_id {
                Some(t) => t,
                None => 0,
            };
            s.append(i32_to_dec(tid).as_str());
            s.append("-container-");
            s.append(ct);
            s
        },
    }
}

/// The deterministic name of a deployment's network:
/// `{slug}-network` for a static deployment and
/// `{slug}-team-{team_id}-network` for an instanced one.
pub open spec fn spec_network_name(
    slug: Seq<char>,
    strategy: DeploymentStrategy,
    team_id: Option<i32>,
) -> Seq<char> {
    match strategy {
        DeploymentStrategy::Static => slug + "-network"@,
        DeploymentStrategy::Instanced => slug + "-team-"@ + spec_dec_signed(
            team_id->Some_0 as int,
        ) + "-network"@,
    }
}

/// Computes the deterministic network name.
pub fn calculate_network_name(
    chall_id: &str,
    strategy: DeploymentStrategy,
    team_id: Option<i32>,
) -> (r: String)
    requires
        strategy == DeploymentStrategy::Instanced ==> team_id is Some,
    ensures
        r@ == spec_network_name(chall_id@, strategy, team_id),
{
    match strategy {
        DeploymentStrategy::Static => {
            let mut s = chall_id.to_owned();
            s.append("-network");
            s
        },
        DeploymentStrategy::Instanced => {
            let mut s = chall_id.to_owned();
            s.append("-team-");
            let tid = match team_id {
                Some(t) => t,
                None => 0,
            };
            s.append(i32_to_dec(tid).as_str());
            s.append("-network");
            s
        },
    }
}


/// Law: the static TCP port is a pure function of (slug, container
/// name, container port, bump seed) alone: equal inputs give equal
/// ports, so reloading the catalog recomputes identical mappings.
pub proof fn lemma_static_port_deterministic(
    slug1: Seq<char>,
    ct1: Seq<char>,
    port1: u16,
    bump1: u64,
    slug2: Seq<char>,
    ct2: Seq<char>,
    port2: u16,
    bump2: u64,
)
    requires
        slug1 == slug2,
        ct1 == ct2,
        port1 == port2,
        bump1 == bump2,
    ensures
        spec_static_port(slug1, ct1, port1, bump1) == spec_static_port(slug2, ct2, port2, bump2),
{
}

/// Law: the HTTP subdomain is a pure function of (slug, public team id
/// or empty, container port) alone: equal inputs give equal subdomains,
/// so cached addresses stay valid across reloads.
pub proof fn lemma_subdomain_deterministic(
    slug1: Seq<char>,
    team1: Option<Seq<char>>,
    port1: u16,
    slug2: Seq<char>,
    team2: Option<Seq<char>>,
    port2: u16,
)
    requires
        slug1 == slug2,
        team1 == team2,
        port1 == port2,
    ensures
        spec_subdomain(slug1, team1, port1) == spec_subdomain(slug2, team2, port2),
{
}

/// Law: a team's absence and an empty public team id hash alike — the
/// preimage writes the empty string for a missing team.
pub proof fn lemma_subdomain_empty_team(slug: Seq<char>, port: u16)
    ensures
        spec_subdomain(slug, None, port) == spec_subdomain(slug, Some(Seq::empty()), port),
{
    assert(spec_subdomain_preimage(slug, None, port) == spec_subdomain_preimage(
        slug,
        Some(Seq::empty()),
        port,
    ));
}


} // verus!
