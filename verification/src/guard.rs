//! Scoped resource guards: during a deploy attempt every created
//! container, network and proxy route is recorded; on success the guard
//! is committed and nothing is cleaned, on abandonment the recorded
//! resources are destroyed in reverse order of creation.

use vstd::prelude::*;

verus! {

/// One best-effort cleanup step of an abandoned deploy.
#[derive(Debug, Clone)]
pub enum CleanupAction {
    /// Force-remove the container, with its volumes.
    RemoveContainer(String),
    /// Remove the network.
    RemoveNetwork(String),
    /// Delete the proxy route of this host name.
    DeleteRoute(String),
}

/// The guard over container-daemon resources: the containers and
/// networks this attempt created, in creation order.
pub struct DockerGuard {
    containers: Vec<String>,
    networks: Vec<String>,
    committed: bool,
}

impl DockerGuard {
    pub closed spec fn spec_containers(&self) -> Seq<String> {
        self.containers@
    }

    pub closed spec fn spec_networks(&self) -> Seq<String> {
        self.networks@
    }

    pub closed spec fn spec_committed(&self) -> bool {
        self.committed
    }

    pub fn new() -> (g: Self)
        ensures
            g.spec_containers() =~= Seq::<String>::empty(),
            g.spec_networks() =~= Seq::<String>::empty(),
            !g.spec_committed(),
    {
        DockerGuard { containers: Vec::new(), networks: Vec::new(), committed: false }
    }

    /// Records a created container.
    pub fn container(&mut self, s: &str)
        ensures
            final(self).spec_containers().len() == old(self).spec_containers().len() + 1,
            forall|k: int|
                0 <= k < old(self).spec_containers().len() ==> final(self).spec_containers()[k]
                    == old(self).spec_containers()[k],
            final(self).spec_containers().last()@ == s@,
            final(self).spec_networks() == old(self).spec_networks(),
            final(self).spec_committed() == old(self).spec_committed(),
    {
        self.containers.push(s.to_owned());
    }

    /// Records a created network.
    pub fn network(&mut self, n: &str)
        ensures
            final(self).spec_networks().len() == old(self).spec_networks().len() + 1,
            forall|k: int|
                0 <= k < old(self).spec_networks().len() ==> final(self).spec_networks()[k] == old(
                    self,
                ).spec_networks()[k],
            final(self).spec_networks().last()@ == n@,
            final(self).spec_containers() == old(self).spec_containers(),
            final(self).spec_committed() == old(self).spec_committed(),
    {
        self.networks.push(n.to_owned());
    }

    /// Commits the guard: the deploy succeeded, nothing is cleaned up.
    pub fn commit(&mut self)
        ensures
            final(self).spec_committed(),
            final(self).spec_containers() == old(self).spec_containers(),
            final(self).spec_networks() == old(self).spec_networks(),
    {
        self.committed = true;
    }

    /// The cleanup of an abandoned attempt: every recorded container is
    /// force-removed in reverse creation order, then every recorded
    /// network; a committed guard cleans nothing.
    pub fn cleanup_actions(&self) -> (acts: Vec<CleanupAction>)
        ensures
            self.spec_committed() ==> acts@.len() == 0,
            !self.spec_committed() ==> {
                let nc = self.spec_containers().len() as int;
                let nn = self.spec_networks().len() as int;
                &&& acts@.len() == nc + nn
                &&& forall|i: int|
                    0 <= i < nc ==> (#[trigger] acts@[i] matches CleanupAction::RemoveContainer(s)
                        && s@ == self.spec_containers()[nc - 1 - i]@)
                &&& forall|i: int|
                    nc <= i < nc + nn ==> (#[trigger] acts@[i] matches CleanupAction::RemoveNetwork(
                        s,
                    ) && s@ == self.spec_networks()[nc + nn - 1 - i]@)
            },
    {
        let mut acts: Vec<CleanupAction> = Vec::new();
        if self.committed {
            return acts;
        }
        let ghost nc = self.spec_containers().len() as int;
        let ghost nn = self.spec_networks().len() as int;
        let mut i: usize = self.containers.len();
        while i > 0
            invariant
                i <= nc,
                nc == self.spec_containers().len(),
                acts@.len() == nc - i,
                forall|k: int|
                    0 <= k < acts@.len() ==> (#[trigger] acts@[k] matches
                        CleanupAction::RemoveContainer(s) && s@ == self.spec_containers()[nc - 1
                        - k]@),
            decreases i,
        {
            i = i - 1;
            acts.push(CleanupAction::RemoveContainer(self.containers[i].clone()));
        }
        let mut i: usize = self.networks.len();
        while i > 0
            invariant
                i <= nn,
                nc == self.spec_containers().len(),
                nn == self.spec_networks().len(),
                acts@.len() == nc + nn - i,
                forall|k: int|
                    0 <= k < nc ==> (#[trigger] acts@[k] matches CleanupAction::RemoveContainer(s)
                        && s@ == self.spec_containers()[nc - 1 - k]@),
                forall|k: int|
                    nc <= k < acts@.len() ==> (#[trigger] acts@[k] matches
                        CleanupAction::RemoveNetwork(s) && s@ == self.spec_networks()[nc + nn - 1
                        - k]@),
            decreases i,
        {
            i = i - 1;
            acts.push(CleanupAction::RemoveNetwork(self.networks[i].clone()));
        }
        acts
    }
}

/// The guard over reverse-proxy routes: the host names this attempt
/// routed, in creation order.
pub struct CaddyGuard {
    routes: Vec<String>,
    committed: bool,
}

impl CaddyGuard {
    pub closed spec fn spec_routes(&self) -> Seq<String> {
        self.routes@
    }

    pub closed spec fn spec_committed(&self) -> bool {
        self.committed
    }

    pub fn new() -> (g: Self)
        ensures
            g.spec_routes() =~= Seq::<String>::empty(),
            !g.spec_committed(),
    {
        CaddyGuard { routes: Vec::new(), committed: false }
    }

    /// Records an added route by its host name.
    pub fn route(&mut self, r: &str)
        ensures
            final(self).spec_routes().len() == old(self).spec_routes().len() + 1,
            forall|k: int|
                0 <= k < old(self).spec_routes().len() ==> final(self).spec_routes()[k] == old(
                    self,
                ).spec_routes()[k],
            final(self).spec_routes().last()@ == r@,
            final(self).spec_committed() == old(self).spec_committed(),
    {
        self.routes.push(r.to_owned());
    }

    /// Commits the guard.
    pub fn commit(&mut self)
        ensures
            final(self).spec_committed(),
            final(self).spec_routes() == old(self).spec_routes(),
    {
        self.committed = true;
    }

    /// The cleanup of an abandoned attempt: every recorded route is
    /// deleted in reverse order; a committed guard cleans nothing.
    pub fn cleanup_actions(&self) -> (acts: Vec<CleanupAction>)
        ensures
            self.spec_committed() ==> acts@.len() == 0,
            !self.spec_committed() ==> {
                let nr = self.spec_routes().len() as int;
                &&& acts@.len() == nr
                &&& forall|i: int|
                    0 <= i < nr ==> (#[trigger] acts@[i] matches CleanupAction::DeleteRoute(s) && s@
                        == self.spec_routes()[nr - 1 - i]@)
            },
    {
        let mut acts: Vec<CleanupAction> = Vec::new();
        if self.committed {
            return acts;
        }
        let ghost nr = self.spec_routes().len() as int;
        let mut i: usize = self.routes.len();
        while i > 0
            invariant
                i <= nr,
                nr == self.spec_routes().len(),
                acts@.len() == nr - i,
                forall|k: int|
                    0 <= k < acts@.len() ==> (#[trigger] acts@[k] matches CleanupAction::DeleteRoute(
                        s,
                    ) && s@ == self.spec_routes()[nr - 1 - k]@),
            decreases i,
        {
            i = i - 1;
            acts.push(CleanupAction::DeleteRoute(self.routes[i].clone()));
        }
        acts
    }
}

/// Law: an abandoned attempt cleans every container it created — each
/// recorded container name appears among the cleanup actions, in reverse
/// creation order — so within the best-effort window no container of a
/// failed deploy survives.
pub proof fn lemma_abandon_covers_containers(g: DockerGuard, acts: Seq<CleanupAction>, i: int)
    requires
        !g.spec_committed(),
        acts.len() == g.spec_containers().len() + g.spec_networks().len(),
        forall|k: int|
            0 <= k < g.spec_containers().len() ==> (#[trigger] acts[k] matches
                CleanupAction::RemoveContainer(s) && s@ == g.spec_containers()[g.spec_containers().len()
                - 1 - k]@),
        0 <= i < g.spec_containers().len(),
    ensures
        acts[g.spec_containers().len() - 1 - i] matches CleanupAction::RemoveContainer(s) && s@
            == g.spec_containers()[i]@,
{
}

} // verus!
