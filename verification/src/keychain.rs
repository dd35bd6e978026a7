//! The host keychain registry: one credential bundle per container host,
//! loaded once at startup.  An entry named `default` must exist; entries
//! are unique by id.

use vstd::prelude::*;

use crate::challenge::DeployableContextData;
use crate::error::Error;
use crate::ident::str_eq;

verus! {

/// The client identity and trust root for the reverse proxy's mTLS
/// control endpoint, as PEM text.
#[derive(Debug, Clone)]
pub struct ClientTLSKeychain {
    pub cacert: String,
    pub cert: String,
    pub key: String,
}

/// How to reach one reverse proxy: its control endpoint, the base domain
/// under which subdomains are exposed, and the mTLS identity.
#[derive(Debug, Clone)]
pub struct CaddyKeychain {
    pub endpoint: String,
    pub base: String,
    pub mtls: ClientTLSKeychain,
}

/// The credential bundle for one logical host: a container daemon and the
/// reverse proxy in front of it.
#[derive(Debug, Clone)]
pub struct HostKeychain {
    pub id: String,
    pub docker: DeployableContextData,
    pub caddy: CaddyKeychain,
}

/// The registry of host keychains, keyed by id.
pub struct KeychainRegistry {
    entries: Vec<HostKeychain>,
}

/// Whether a sequence of keychains has an entry with the given id.
pub open spec fn spec_has_id(entries: Seq<HostKeychain>, id: Seq<char>) -> bool {
    exists|i: int| 0 <= i < entries.len() && #[trigger] entries[i].id@ == id
}

/// Whether keychain ids are pairwise distinct.
pub open spec fn spec_ids_unique(entries: Seq<HostKeychain>) -> bool {
    forall|i: int, j: int|
        0 <= i < j < entries.len() ==> #[trigger] entries[i].id@ != #[trigger] entries[j].id@
}

impl View for KeychainRegistry {
    type V = Seq<HostKeychain>;

    closed spec fn view(&self) -> Seq<HostKeychain> {
        self.entries@
    }
}

impl KeychainRegistry {
    /// A well-formed registry: unique ids, and a `default` entry.
    pub open spec fn wf(&self) -> bool {
        spec_ids_unique(self@) && spec_has_id(self@, "default"@)
    }

    /// Looks up the keychain for a host id, falling back to `default`
    /// when the spec names none.
    pub fn lookup(&self, host_id: Option<&String>) -> (r: Option<&HostKeychain>)
        ensures
            match r {
                Some(k) => {
                    &&& exists|i: int| 0 <= i < self@.len() && self@[i] == *k
                    &&& k.id@ == match host_id {
                        Some(h) => h@,
                        None => "default"@,
                    }
                },
                None => !spec_has_id(
                    self@,
                    match host_id {
                        Some(h) => h@,
                        None => "default"@,
                    },
                ),
            },
    {
        let requested: &str = match host_id {
            Some(h) => h.as_str(),
            None => "default",
        };
        proof {
            reveal_strlit("default");
        }
        let n = self.entries.len();
        let mut i: usize = 0;
        while i < n
            invariant
                i <= n,
                n == self@.len(),
                requested@ == match host_id {
                    Some(h) => h@,
                    None => "default"@,
                },
                forall|j: int| 0 <= j < i ==> #[trigger] self@[j].id@ != requested@,
            decreases n - i,
        {
            if str_eq(self.entries[i].id.as_str(), requested) {
                return Some(&self.entries[i]);
            }
            i = i + 1;
        }
        None
    }
}

/// Builds the registry from the parsed keychain entries, rejecting a
/// duplicate id and a missing `default` entry.  Succeeds exactly when
/// the ids are unique and `default` is among them.
pub fn build_registry(entries: Vec<HostKeychain>) -> (r: Result<KeychainRegistry, Error>)
    ensures
        match r {
            Ok(reg) => {
                &&& reg@ == entries@
                &&& reg.wf()
            },
            Err(e) => {
                &&& !(spec_ids_unique(entries@) && spec_has_id(entries@, "default"@))
                &&& e is Misconfiguration
            },
        },
{
    proof {
        reveal_strlit("default");
    }
    let n = entries.len();
    let mut i: usize = 0;
    while i < n
        invariant
            i <= n,
            n == entries@.len(),
            spec_ids_unique(entries@.subrange(0, i as int)),
        decreases n - i,
    {
        let mut j: usize = 0;
        while j < i
            invariant
                j <= i < n,
                n == entries@.len(),
                forall|k: int| 0 <= k < j ==> #[trigger] entries@[k].id@ != entries@[i as int].id@,
            decreases i - j,
        {
            if str_eq(entries[j].id.as_str(), entries[i].id.as_str()) {
                let mut message = String::from_str("duplicate host keychain ");
                message.append(entries[i].id.as_str());
                return Err(Error::Misconfiguration { message });
            }
            j = j + 1;
        }
        proof {
            assert forall|a: int, b: int| 0 <= a < b < i + 1 implies #[trigger] entries@[a].id@
                != #[trigger] entries@[b].id@ by {
                if b < i {
                    assert(entries@.subrange(0, i as int)[a] == entries@[a]);
                    assert(entries@.subrange(0, i as int)[b] == entries@[b]);
                }
            }
            assert(spec_ids_unique(entries@.subrange(0, i as int + 1)));
        }
        i = i + 1;
    }
    assert(entries@.subrange(0, n as int) =~= entries@);

    let mut has_default = false;
    let mut i: usize = 0;
    while i < n
        invariant
            i <= n,
            n == entries@.len(),
            has_default == spec_has_id(entries@.subrange(0, i as int), "default"@),
            "default"@ == "default"@,
        decreases n - i,
    {
        proof {
            reveal_strlit("default");
        }
        if str_eq(entries[i].id.as_str(), "default") {
            has_default = true;
        }
        proof {
            assert(entries@.subrange(0, i as int + 1)[i as int] == entries@[i as int]);
            if spec_has_id(entries@.subrange(0, i as int), "default"@) {
                let w = choose|w: int|
                    0 <= w < i && #[trigger] entries@.subrange(0, i as int)[w].id@ == "default"@;
                assert(entries@.subrange(0, i as int + 1)[w] == entries@[w]);
            }
            if spec_has_id(entries@.subrange(0, i as int + 1), "default"@) && entries@[i as int].id@
                != "default"@ {
                let w = choose|w: int|
                    0 <= w < i + 1 && #[trigger] entries@.subrange(0, i as int + 1)[w].id@
                        == "default"@;
                assert(entries@.subrange(0, i as int)[w] == entries@[w]);
            }
        }
        i = i + 1;
    }
    if !has_default {
        return Err(
            Error::Misconfiguration { message: String::from_str("missing default host keychain") },
        );
    }
    Ok(KeychainRegistry { entries })
}

} // verus!
