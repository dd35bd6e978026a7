//! The declarative challenge format: what an author writes for one
//! challenge, the per-container workload description, and the plain data
//! that selects a container daemon.  Paths and credential material are
//! held as plain strings; the driver that talks to the daemon converts
//! them at the boundary.

use vstd::prelude::*;

use crate::ident::str_eq;

verus! {

/// How a challenge is deployed: one shared instance for everyone, or one
/// instance per team.
#[derive(Debug, Clone, Copy, PartialEq, Eq, Structural)]
pub enum DeploymentStrategy {
    Static,
    Instanced,
}

/// How one container port is exposed: a raw TCP mapping on the host, or
/// an HTTP subdomain behind the reverse proxy.
#[derive(Debug, Clone, Copy, PartialEq, Eq, Structural)]
pub enum ExposeType {
    Tcp,
    Http,
}

/// Resource limits for one container: nano-cpus and bytes of memory.
#[derive(Debug, Clone, Copy, PartialEq, Eq, Structural)]
pub struct Limits {
    pub cpu: Option<i64>,
    pub mem: Option<i64>,
}

impl Default for Limits {
    /// One vcpu and 100 MiB.
    fn default() -> (r: Self)
        ensures
            r.cpu == Some(1_000_000_000i64),
            r.mem == Some(104_857_600i64),
    {
        Limits { cpu: Some(1_000_000_000), mem: Some(104_857_600) }
    }
}

/// The points awarded for a challenge, decaying from `max` to `min`.
#[derive(Debug, Clone, Copy, PartialEq, Eq, Structural)]
pub struct PointRange {
    pub min: i32,
    pub max: i32,
}

/// A challenge flag: given inline, or read from a file of the challenge
/// directory.
#[derive(Debug, Clone)]
pub enum Flag {
    Raw(String),
    File { file: String },
}

/// A file handed to players: a bare file, a file under another name, or a
/// directory packed into an archive.
#[derive(Debug, Clone)]
pub enum Attachment {
    File(String),
    Named { file: String, as_name: String },
    Archive { dir: String, as_name: String, exclude: Option<Vec<String>> },
}

/// One container workload of a challenge.
#[derive(Debug, Clone)]
pub struct Container {
    pub build: String,
    pub limits: Limits,
    pub env: Option<Vec<(String, String)>>,
    pub expose: Option<Vec<(u16, ExposeType)>>,
    pub cap_add: Option<Vec<String>>,
    pub privileged: Option<bool>,
}

/// Switches for features that are not enabled by default.
#[derive(Debug, Clone, Copy, PartialEq, Eq, Structural)]
pub struct ExperimentalOptions {
    pub use_docker_buildkit: bool,
}

impl Default for ExperimentalOptions {
    fn default() -> (r: Self)
        ensures
            !r.use_docker_buildkit,
    {
        ExperimentalOptions { use_docker_buildkit: false }
    }
}

/// How to reach a container daemon: the local default socket, or a remote
/// endpoint over mutually authenticated TLS, with the PEM material inline.
#[derive(Debug, Clone)]
pub enum DockerData {
    Local,
    Ssl { address: String, key: String, cert: String, ca: String },
}

/// Credentials for an image registry.
#[derive(Debug, Clone)]
pub struct RegistryCredentials {
    pub username: Option<String>,
    pub password: Option<String>,
    pub email: Option<String>,
    pub serveraddress: Option<String>,
}

/// The plain data from which a container-daemon client is built: the
/// daemon endpoint, optional registry credentials, and how image
/// references are derived.
#[derive(Debug, Clone)]
pub struct DeployableContextData {
    pub docker: DockerData,
    pub docker_credentials: Option<RegistryCredentials>,
    pub image_prefix: String,
    pub repo: String,
    pub experimental: ExperimentalOptions,
}

/// An authored challenge spec.
#[derive(Debug, Clone)]
pub struct Challenge {
    pub id: String,
    pub name: String,
    pub author: String,
    pub description: String,
    pub flag: Flag,
    pub visible: Option<bool>,
    pub group: Option<String>,
    pub build_group: Option<String>,
    pub category: String,
    pub points: PointRange,
    pub provide: Option<Vec<Attachment>>,
    pub container: Option<Vec<(String, Container)>>,
    pub strategy: DeploymentStrategy,
    pub bump_seed: u64,
    pub host: Option<String>,
    pub instance_lifetime: Option<u64>,
}

/// Whether a bump seed is the default and can be left out when the spec
/// is written back to disk.
pub fn is_zero(x: &u64) -> (r: bool)
    ensures
        r == (*x == 0),
{
    *x == 0
}

/// The strategy assumed when a spec names none.
pub fn default_strategy() -> (r: DeploymentStrategy)
    ensures
        r == DeploymentStrategy::Static,
{
    DeploymentStrategy::Static
}

/// The archive name assumed when a packed attachment names none.
pub fn default_archive_name() -> (r: String)
    ensures
        r@ == "chall"@,
{
    String::from_str("chall")
}

/// The image reference for container `ct` of challenge `slug`:
/// `{repo}/{image_prefix}{slug}` for the distinguished name `default`,
/// and `{repo}/{image_prefix}{slug}-{ct}` otherwise.
pub open spec fn spec_image_id(
    repo: Seq<char>,
    image_prefix: Seq<char>,
    slug: Seq<char>,
    ct: Seq<char>,
) -> Seq<char> {
    if ct == "default"@ {
        repo + "/"@ + image_prefix + slug
    } else {
        repo + "/"@ + image_prefix + slug + "-"@ + ct
    }
}

impl Challenge {
    /// The container entries of the spec, empty when it has none.
    pub open spec fn spec_containers(&self) -> Seq<(String, Container)> {
        match self.container {
            Some(v) => v@,
            None => Seq::empty(),
        }
    }

    pub fn image_id(&self, ctx: &DeployableContextData, ct: &str) -> (r: String)
        ensures
            r@ == spec_image_id(ctx.repo@, ctx.image_prefix@, self.id@, ct@),
    {
        let mut s = ctx.repo.clone();
        s.append("/");
        s.append(ctx.image_prefix.as_str());
        s.append(self.id.as_str());
        if !str_eq(ct, "default") {
            s.append("-");
            s.append(ct);
        }
        s
    }
}

} // verus!
