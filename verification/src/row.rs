//! Persisted deployment rows: the record of intent for one (challenge,
//! team) slot, the per-container data recorded on success, and the
//! sanitized shape emitted to clients.  Timestamps are seconds since the
//! epoch.

use vstd::prelude::*;

verus! {

/// How one container port reaches the public network: a raw TCP port on
/// the host, or an HTTP subdomain under the proxy's base domain.
#[derive(Debug, Clone)]
pub enum HostMapping {
    Tcp { port: u16, base: String },
    Http { subdomain: String, base: String },
}

/// What was recorded for one deployed container: the container name it
/// was created under, and the public mapping of each exposed port.
#[derive(Debug, Clone)]
pub struct DeploymentDataS {
    pub container_id: String,
    pub ports: Vec<(u16, HostMapping)>,
}

/// The recorded data of a whole deployment, keyed by container entry name.
pub type DeploymentData = Vec<(String, DeploymentDataS)>;

/// The sentinel that replaces container names before a row is emitted:
/// the real names permit direct container addressing on the host.
pub open spec fn spec_redacted() -> Seq<char> {
    "redacted-xxxxx"@
}

/// One deployment row.  `deployed` is set only after the full apply
/// succeeded; `data` is present exactly while the deployment is live;
/// `expired_at` is set only for instanced deployments.
#[derive(Debug, Clone)]
pub struct ChallengeDeployment {
    pub id: i32,
    pub public_id: String,
    pub team_id: Option<i32>,
    pub challenge_id: i32,
    pub deployed: bool,
    pub data: Option<DeploymentData>,
    pub created_at: i64,
    pub expired_at: Option<i64>,
    pub destroyed_at: Option<i64>,
}

/// Two host mappings equal by their character content.
pub open spec fn spec_mapping_eqv(a: HostMapping, b: HostMapping) -> bool {
    match (a, b) {
        (HostMapping::Tcp { port: p1, base: b1 }, HostMapping::Tcp { port: p2, base: b2 }) => p1
            == p2 && b1@ == b2@,
        (
            HostMapping::Http { subdomain: s1, base: b1 },
            HostMapping::Http { subdomain: s2, base: b2 },
        ) => s1@ == s2@ && b1@ == b2@,
        _ => false,
    }
}

/// Two port maps equal by their character content.
pub open spec fn spec_ports_eqv(a: Seq<(u16, HostMapping)>, b: Seq<(u16, HostMapping)>) -> bool {
    a.len() == b.len() && forall|i: int|
        0 <= i < a.len() ==> (#[trigger] a[i]).0 == b[i].0 && spec_mapping_eqv(a[i].1, b[i].1)
}

/// Whether `r` is `d` with every container name scrubbed: the same keys
/// in the same order, the same ports, and the sentinel in place of each
/// container id.
pub open spec fn spec_sanitized_data(d: Seq<(String, DeploymentDataS)>, r: Seq<(String, DeploymentDataS)>) -> bool {
    &&& r.len() == d.len()
    &&& forall|i: int|
        0 <= i < d.len() ==> {
            &&& (#[trigger] r[i]).0 == d[i].0
            &&& r[i].1.ports == d[i].1.ports
            &&& r[i].1.container_id@ == spec_redacted()
        }
}

/// Copies one host mapping.
pub fn clone_mapping(m: &(u16, HostMapping)) -> (r: (u16, HostMapping))
    ensures
        r.0 == m.0,
        spec_mapping_eqv(r.1, m.1),
{
    let hm = match &m.1 {
        HostMapping::Tcp { port, base } => HostMapping::Tcp { port: *port, base: base.clone() },
        HostMapping::Http { subdomain, base } => HostMapping::Http {
            subdomain: subdomain.clone(),
            base: base.clone(),
        },
    };
    (m.0, hm)
}

/// Copies a port map.
pub fn clone_ports(ports: &Vec<(u16, HostMapping)>) -> (r: Vec<(u16, HostMapping)>)
    ensures
        spec_ports_eqv(r@, ports@),
{
    let mut r: Vec<(u16, HostMapping)> = Vec::new();
    let n = ports.len();
    let mut i: usize = 0;
    while i < n
        invariant
            i <= n,
            n == ports@.len(),
            r@.len() == i,
            forall|j: int|
                0 <= j < i ==> (#[trigger] r@[j]).0 == ports@[j].0 && spec_mapping_eqv(
                    r@[j].1,
                    ports@[j].1,
                ),
        decreases n - i,
    {
        r.push(clone_mapping(&ports[i]));
        i = i + 1;
    }
    r
}

/// Whether `r` is `orig` with every container name scrubbed, the rest
/// kept to the character.
pub open spec fn spec_sanitized_row(orig: ChallengeDeployment, r: ChallengeDeployment) -> bool {
    &&& r.id == orig.id
    &&& r.public_id@ == orig.public_id@
    &&& r.team_id == orig.team_id
    &&& r.challenge_id == orig.challenge_id
    &&& r.deployed == orig.deployed
    &&& r.created_at == orig.created_at
    &&& r.expired_at == orig.expired_at
    &&& r.destroyed_at == orig.destroyed_at
    &&& match (orig.data, r.data) {
        (None, None) => true,
        (Some(d), Some(rd)) => {
            &&& rd@.len() == d@.len()
            &&& forall|i: int|
                0 <= i < d@.len() ==> {
                    &&& (#[trigger] rd@[i]).0@ == d@[i].0@
                    &&& spec_ports_eqv(rd@[i].1.ports@, d@[i].1.ports@)
                    &&& rd@[i].1.container_id@ == spec_redacted()
                }
        },
        _ => false,
    }
}

impl ChallengeDeployment {
    /// Whether this row occupies the (challenge, team) slot: it has not
    /// been destroyed.
    pub open spec fn spec_active(&self) -> bool {
        self.destroyed_at is None
    }

    /// A copy of the row with the container names scrubbed, ready to be
    /// emitted to a client.
    pub fn sanitized_copy(&self) -> (r: Self)
        ensures
            spec_sanitized_row(*self, r),
    {
        let data = match &self.data {
            None => None,
            Some(d) => {
                let mut out: DeploymentData = Vec::new();
                let n = d.len();
                let mut i: usize = 0;
                while i < n
                    invariant
                        i <= n,
                        n == d@.len(),
                        out@.len() == i,
                        forall|j: int|
                            0 <= j < i ==> {
                                &&& (#[trigger] out@[j]).0@ == d@[j].0@
                                &&& spec_ports_eqv(out@[j].1.ports@, d@[j].1.ports@)
                                &&& out@[j].1.container_id@ == spec_redacted()
                            },
                    decreases n - i,
                {
                    proof {
                        reveal_strlit("redacted-xxxxx");
                    }
                    out.push(
                        (
                            d[i].0.clone(),
                            DeploymentDataS {
                                container_id: String::from_str("redacted-xxxxx"),
                                ports: clone_ports(&d[i].1.ports),
                            },
                        ),
                    );
                    i = i + 1;
                }
                Some(out)
            },
        };
        ChallengeDeployment {
            id: self.id,
            public_id: self.public_id.clone(),
            team_id: self.team_id,
            challenge_id: self.challenge_id,
            deployed: self.deployed,
            data,
            created_at: self.created_at,
            expired_at: self.expired_at,
            destroyed_at: self.destroyed_at,
        }
    }

    /// Scrubs the container names out of the recorded data before the
    /// row is emitted to a client; everything else is kept as it is.
    pub fn sanitize(self) -> (r: Self)
        ensures
            r.id == self.id,
            r.public_id == self.public_id,
            r.team_id == self.team_id,
            r.challenge_id == self.challenge_id,
            r.deployed == self.deployed,
            r.created_at == self.created_at,
            r.expired_at == self.expired_at,
            r.destroyed_at == self.destroyed_at,
            match (self.data, r.data) {
                (None, None) => true,
                (Some(d), Some(rd)) => spec_sanitized_data(d@, rd@),
                _ => false,
            },
    {
        let data = match self.data {
            None => None,
            Some(mut d) => {
                let ghost orig = d@;
                let mut out: DeploymentData = Vec::new();
                while d.len() > 0
                    invariant
                        out@.len() + d@.len() == orig.len(),
                        d@ =~= orig.subrange(out@.len() as int, orig.len() as int),
                        spec_sanitized_data(orig.subrange(0, out@.len() as int), out@),
                    decreases d@.len(),
                {
                    let ghost done = out@.len() as int;
                    let (k, v) = d.remove(0);
                    out.push(
                        (k, DeploymentDataS {
                            container_id: String::from_str("redacted-xxxxx"),
                            ports: v.ports,
                        }),
                    );
                    proof {
                        reveal_strlit("redacted-xxxxx");
                        assert(orig.subrange(done, orig.len() as int)[0] == orig[done]);
                        assert(orig.subrange(0, done + 1) =~= orig.subrange(0, done).push(
                            orig[done],
                        ));
                    }
                }
                proof {
                    assert(orig.subrange(0, orig.len() as int) =~= orig);
                }
                Some(out)
            },
        };
        ChallengeDeployment {
            id: self.id,
            public_id: self.public_id,
            team_id: self.team_id,
            challenge_id: self.challenge_id,
            deployed: self.deployed,
            data,
            created_at: self.created_at,
            expired_at: self.expired_at,
            destroyed_at: self.destroyed_at,
        }
    }
}

} // verus!
