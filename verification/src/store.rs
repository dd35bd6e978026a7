//! The deployment state store: the persisted rows and their transactional
//! transitions.  Four operations mutate a row set — claim, finalize,
//! mark-destroyed and drop-pending — and each is specified as a relation
//! between the row set before and after, so that the slot-exclusion and
//! lifecycle laws can be stated and proved over those relations.

use vstd::prelude::*;

use crate::error::Error;
use crate::ident::str_eq;
use crate::row::{ChallengeDeployment, DeploymentData};

verus! {

/// Whether row `r` belongs to the (challenge, team) slot.
pub open spec fn spec_same_slot(
    r: ChallengeDeployment,
    challenge_id: i32,
    team_id: Option<i32>,
) -> bool {
    r.challenge_id == challenge_id && r.team_id == team_id
}

/// Whether some non-destroyed row occupies the slot.
pub open spec fn spec_has_active(
    rows: Seq<ChallengeDeployment>,
    challenge_id: i32,
    team_id: Option<i32>,
) -> bool {
    exists|i: int|
        0 <= i < rows.len() && (#[trigger] rows[i]).spec_active() && spec_same_slot(
            rows[i],
            challenge_id,
            team_id,
        )
}

/// Whether some row carries this public id.
pub open spec fn spec_public_id_taken(rows: Seq<ChallengeDeployment>, pid: Seq<char>) -> bool {
    exists|i: int| 0 <= i < rows.len() && (#[trigger] rows[i]).public_id@ == pid
}

/// Invariant A of the row set: at most one non-destroyed row per slot.
pub open spec fn spec_at_most_one_active(rows: Seq<ChallengeDeployment>) -> bool {
    forall|i: int, j: int|
        0 <= i < j < rows.len() && (#[trigger] rows[i]).spec_active()
            && (#[trigger] rows[j]).spec_active() ==> !(rows[i].challenge_id == rows[j].challenge_id
            && rows[i].team_id == rows[j].team_id)
}

/// The effect of a successful claim: the slot was free before, every old
/// row is kept as it was, and one fresh pending row for the slot stands
/// at the end, agreeing with the returned row.
pub open spec fn spec_claim_ok(
    pre: Seq<ChallengeDeployment>,
    post: Seq<ChallengeDeployment>,
    ret: ChallengeDeployment,
    challenge_id: i32,
    team_id: Option<i32>,
    now: i64,
) -> bool {
    &&& !spec_has_active(pre, challenge_id, team_id)
    &&& post.len() == pre.len() + 1
    &&& forall|i: int| 0 <= i < pre.len() ==> post[i] == pre[i]
    &&& {
        let last = post[pre.len() as int];
        &&& last.id == ret.id
        &&& last.public_id@ == ret.public_id@
        &&& last.challenge_id == challenge_id && ret.challenge_id == challenge_id
        &&& last.team_id == team_id && ret.team_id == team_id
        &&& !last.deployed && !ret.deployed
        &&& last.data is None && ret.data is None
        &&& last.created_at == now && ret.created_at == now
        &&& last.expired_at is None && ret.expired_at is None
        &&& last.destroyed_at is None && ret.destroyed_at is None
    }
}

/// The effect of finalizing row `i`: it becomes deployed, carries the
/// recorded data and the lease, and every other row is untouched.
pub open spec fn spec_finalize_at(
    pre: Seq<ChallengeDeployment>,
    post: Seq<ChallengeDeployment>,
    i: int,
    data: DeploymentData,
    expired_at: Option<i64>,
) -> bool {
    &&& 0 <= i < pre.len()
    &&& pre[i].spec_active() && !pre[i].deployed
    &&& post == pre.update(
        i,
        ChallengeDeployment {
            deployed: true,
            data: Some(data),
            expired_at,
            ..pre[i]
        },
    )
}

/// The effect of marking row `i` destroyed: its data is cleared, its
/// destruction time is set, and every other row is untouched.
pub open spec fn spec_destroy_at(
    pre: Seq<ChallengeDeployment>,
    post: Seq<ChallengeDeployment>,
    i: int,
    now: i64,
) -> bool {
    &&& 0 <= i < pre.len()
    &&& pre[i].spec_active()
    &&& post == pre.update(
        i,
        ChallengeDeployment { data: None, destroyed_at: Some(now), ..pre[i] },
    )
}

/// The effect of dropping pending row `i`: it is gone and every other
/// row is kept in order.
pub open spec fn spec_drop_at(
    pre: Seq<ChallengeDeployment>,
    post: Seq<ChallengeDeployment>,
    i: int,
) -> bool {
    &&& 0 <= i < pre.len()
    &&& !pre[i].deployed
    &&& post == pre.remove(i)
}

/// The deployment state store.
pub struct DeploymentStore {
    rows: Vec<ChallengeDeployment>,
    next_id: i32,
}

impl View for DeploymentStore {
    type V = Seq<ChallengeDeployment>;

    closed spec fn view(&self) -> Seq<ChallengeDeployment> {
        self.rows@
    }
}

/// Compares two optional team ids.
fn opt_i32_eq(a: Option<i32>, b: Option<i32>) -> (r: bool)
    ensures
        r == (a == b),
{
    match (a, b) {
        (None, None) => true,
        (Some(x), Some(y)) => x == y,
        _ => false,
    }
}

impl DeploymentStore {
    pub open spec fn ids_below_next(&self) -> bool {
        forall|i: int| 0 <= i < self@.len() ==> (#[trigger] self@[i]).id < self.spec_next_id()
    }

    pub closed spec fn spec_next_id(&self) -> i32 {
        self.next_id
    }

    /// The store's well-formedness: unique row ids, unique public ids,
    /// at most one active row per slot, destruction never before
    /// creation, and data present on every live deployed row.
    pub open spec fn wf(&self) -> bool {
        &&& spec_at_most_one_active(self@)
        &&& forall|i: int, j: int|
            0 <= i < j < self@.len() ==> (#[trigger] self@[i]).id != (#[trigger] self@[j]).id
        &&& forall|i: int, j: int|
            0 <= i < j < self@.len() ==> (#[trigger] self@[i]).public_id@ != (
            #[trigger] self@[j]).public_id@
        &&& forall|i: int|
            0 <= i < self@.len() ==> match (#[trigger] self@[i]).destroyed_at {
                Some(t) => t >= self@[i].created_at,
                None => true,
            }
        &&& forall|i: int|
            0 <= i < self@.len() && (#[trigger] self@[i]).deployed && self@[i].spec_active()
                ==> self@[i].data is Some
        &&& self.ids_below_next()
    }

    /// An empty store.
    pub fn new() -> (s: Self)
        ensures
            s@ =~= Seq::<ChallengeDeployment>::empty(),
            s.wf(),
    {
        DeploymentStore { rows: Vec::new(), next_id: 1 }
    }

    /// The number of rows.
    pub fn len(&self) -> (n: usize)
        ensures
            n == self@.len(),
    {
        self.rows.len()
    }

    /// The row at an index.
    pub fn row_at(&self, i: usize) -> (r: &ChallengeDeployment)
        requires
            i < self@.len(),
        ensures
            *r == self@[i as int],
    {
        &self.rows[i]
    }

    /// The non-destroyed row of a slot, if one exists.
    pub fn find_active(&self, challenge_id: i32, team_id: Option<i32>) -> (r: Option<
        &ChallengeDeployment,
    >)
        ensures
            match r {
                Some(row) => {
                    &&& exists|i: int| 0 <= i < self@.len() && #[trigger] self@[i] == *row
                    &&& row.spec_active()
                    &&& spec_same_slot(*row, challenge_id, team_id)
                },
                None => !spec_has_active(self@, challenge_id, team_id),
            },
    {
        let n = self.rows.len();
        let mut i: usize = 0;
        while i < n
            invariant
                i <= n,
                n == self@.len(),
                forall|j: int|
                    0 <= j < i ==> !((#[trigger] self@[j]).spec_active() && spec_same_slot(
                        self@[j],
                        challenge_id,
                        team_id,
                    )),
            decreases n - i,
        {
            let row = &self.rows[i];
            if row.destroyed_at.is_none() && row.challenge_id == challenge_id && opt_i32_eq(
                row.team_id,
                team_id,
            ) {
                return Some(row);
            }
            i = i + 1;
        }
        None
    }

    /// The row carrying a public id, if one exists.
    pub fn find_by_public_id(&self, public_id: &str) -> (r: Option<&ChallengeDeployment>)
        ensures
            match r {
                Some(row) => {
                    &&& exists|i: int| 0 <= i < self@.len() && #[trigger] self@[i] == *row
                    &&& row.public_id@ == public_id@
                },
                None => !spec_public_id_taken(self@, public_id@),
            },
    {
        let n = self.rows.len();
        let mut i: usize = 0;
        while i < n
            invariant
                i <= n,
                n == self@.len(),
                forall|j: int| 0 <= j < i ==> (#[trigger] self@[j]).public_id@ != public_id@,
            decreases n - i,
        {
            if str_eq(self.rows[i].public_id.as_str(), public_id) {
                return Some(&self.rows[i]);
            }
            i = i + 1;
        }
        None
    }

    /// The row with this id, if one exists.
    pub fn find_by_id(&self, row_id: i32) -> (r: Option<&ChallengeDeployment>)
        ensures
            match r {
                Some(row) => {
                    &&& exists|i: int| 0 <= i < self@.len() && #[trigger] self@[i] == *row
                    &&& row.id == row_id
                },
                None => forall|j: int| 0 <= j < self@.len() ==> (#[trigger] self@[j]).id != row_id,
            },
    {
        let n = self.rows.len();
        let mut i: usize = 0;
        while i < n
            invariant
                i <= n,
                n == self@.len(),
                forall|j: int| 0 <= j < i ==> (#[trigger] self@[j]).id != row_id,
            decreases n - i,
        {
            if self.rows[i].id == row_id {
                return Some(&self.rows[i]);
            }
            i = i + 1;
        }
        None
    }

    /// Claims the (challenge, team) slot: returns the fresh pending row,
    /// or `AlreadyDeployed` with the public id of the occupying row.  A
    /// collision on the supplied public id, or an exhausted id space,
    /// is a database error; nothing else fails.
    pub fn claim(
        &mut self,
        challenge_id: i32,
        team_id: Option<i32>,
        public_id: String,
        now: i64,
    ) -> (r: Result<ChallengeDeployment, Error>)
        requires
            old(self).wf(),
        ensures
            final(self).wf(),
            r is Err ==> final(self)@ == old(self)@,
            match r {
                Ok(row) => {
                    &&& spec_claim_ok(old(self)@, final(self)@, row, challenge_id, team_id, now)
                    &&& row.public_id@ == public_id@
                },
                Err(e) => match e {
                    Error::AlreadyDeployed { public_id: pid } => exists|i: int|
                        0 <= i < old(self)@.len() && (#[trigger] old(self)@[i]).spec_active()
                            && spec_same_slot(old(self)@[i], challenge_id, team_id) && old(
                            self,
                        )@[i].public_id@ == pid@,
                    Error::Database { .. } => !spec_has_active(old(self)@, challenge_id, team_id)
                        && (spec_public_id_taken(old(self)@, public_id@) || old(
                        self,
                    ).spec_next_id() == i32::MAX),
                    _ => false,
                },
            },
            (r is Ok) == (!spec_has_active(old(self)@, challenge_id, team_id)
                && !spec_public_id_taken(old(self)@, public_id@) && old(self).spec_next_id()
                != i32::MAX),
    {
        let n = self.rows.len();
        let mut i: usize = 0;
        while i < n
            invariant
                i <= n,
                n == self@.len(),
                *self == *old(self),
                old(self).wf(),
                forall|j: int|
                    0 <= j < i ==> !((#[trigger] self@[j]).spec_active() && spec_same_slot(
                        self@[j],
                        challenge_id,
                        team_id,
                    )),
            decreases n - i,
        {
            let row = &self.rows[i];
            if row.destroyed_at.is_none() && row.challenge_id == challenge_id && opt_i32_eq(
                row.team_id,
                team_id,
            ) {
                return Err(Error::AlreadyDeployed { public_id: row.public_id.clone() });
            }
            i = i + 1;
        }
        assert(!spec_has_active(self@, challenge_id, team_id));

        let mut i: usize = 0;
        while i < n
            invariant
                i <= n,
                n == self@.len(),
                *self == *old(self),
                old(self).wf(),
                !spec_has_active(self@, challenge_id, team_id),
                forall|j: int| 0 <= j < i ==> (#[trigger] self@[j]).public_id@ != public_id@,
            decreases n - i,
        {
            if str_eq(self.rows[i].public_id.as_str(), public_id.as_str()) {
                return Err(
                    Error::Database { message: String::from_str("public id already in use") },
                );
            }
            i = i + 1;
        }

        if self.next_id == i32::MAX {
            return Err(Error::Database { message: String::from_str("row id space exhausted") });
        }

        let id = self.next_id;
        self.next_id = id + 1;
        let ret = ChallengeDeployment {
            id,
            public_id: public_id.clone(),
            team_id,
            challenge_id,
            deployed: false,
            data: None,
            created_at: now,
            expired_at: None,
            destroyed_at: None,
        };
        let stored = ChallengeDeployment {
            id,
            public_id,
            team_id,
            challenge_id,
            deployed: false,
            data: None,
            created_at: now,
            expired_at: None,
            destroyed_at: None,
        };
        self.rows.push(stored);
        Ok(ret)
    }

    /// The index of the row with this id, if one exists.
    fn index_of(&self, row_id: i32) -> (r: Option<usize>)
        ensures
            match r {
                Some(i) => i < self@.len() && self@[i as int].id == row_id,
                None => forall|j: int| 0 <= j < self@.len() ==> (#[trigger] self@[j]).id != row_id,
            },
    {
        let n = self.rows.len();
        let mut i: usize = 0;
        while i < n
            invariant
                i <= n,
                n == self@.len(),
                forall|j: int| 0 <= j < i ==> (#[trigger] self@[j]).id != row_id,
            decreases n - i,
        {
            if self.rows[i].id == row_id {
                return Some(i);
            }
            i = i + 1;
        }
        None
    }

    /// Finalizes a pending row: sets `deployed`, records the data, and
    /// sets the lease.  Succeeds exactly when the row exists, is not
    /// destroyed, and is not yet deployed.
    pub fn finalize(&mut self, row_id: i32, data: DeploymentData, expired_at: Option<i64>) -> (r:
        Result<(), Error>)
        requires
            old(self).wf(),
        ensures
            final(self).wf(),
            r is Err ==> final(self)@ == old(self)@,
            match r {
                Ok(_) => exists|i: int|
                    #![trigger old(self)@[i]]
                    {
                        &&& 0 <= i < old(self)@.len()
                        &&& old(self)@[i].id == row_id
                        &&& spec_finalize_at(old(self)@, final(self)@, i, data, expired_at)
                    },
                Err(e) => e is NotFound,
            },
            (r is Ok) == exists|i: int|
                0 <= i < old(self)@.len() && (#[trigger] old(self)@[i]).id == row_id && old(
                    self,
                )@[i].spec_active() && !old(self)@[i].deployed,
    {
        let found = self.index_of(row_id);
        match found {
            None => Err(Error::NotFound),
            Some(i) => {
                let row = &self.rows[i];
                if row.destroyed_at.is_some() || row.deployed {
                    proof {
                        assert forall|j: int|
                            0 <= j < self@.len() && (#[trigger] self@[j]).id == row_id && self@[j].spec_active()
                                && !self@[j].deployed implies false by {
                            if j != i {
                                assert(self@[j].id != self@[i as int].id);
                            }
                        }
                    }
                    return Err(Error::NotFound);
                }
                let old_row = self.rows.remove(i);
                let new_row = ChallengeDeployment {
                    deployed: true,
                    data: Some(data),
                    expired_at,
                    ..old_row
                };
                self.rows.insert(i, new_row);
                proof {
                    assert(self@ =~= old(self)@.update(
                        i as int,
                        ChallengeDeployment {
                            deployed: true,
                            data: Some(data),
                            expired_at,
                            ..old(self)@[i as int]
                        },
                    ));
                }
                Ok(())
            },
        }
    }

    /// Marks a row destroyed: clears its data and stamps the destruction
    /// time.  Succeeds exactly when the row exists and is not already
    /// destroyed; destroying twice reports `AlreadyDestroyed`.
    pub fn mark_destroyed(&mut self, row_id: i32, now: i64) -> (r: Result<(), Error>)
        requires
            old(self).wf(),
            forall|i: int|
                0 <= i < old(self)@.len() && (#[trigger] old(self)@[i]).id == row_id ==> now >= old(
                    self,
                )@[i].created_at,
        ensures
            final(self).wf(),
            r is Err ==> final(self)@ == old(self)@,
            match r {
                Ok(_) => exists|i: int|
                    #![trigger old(self)@[i]]
                    {
                        &&& 0 <= i < old(self)@.len()
                        &&& old(self)@[i].id == row_id
                        &&& spec_destroy_at(old(self)@, final(self)@, i, now)
                    },
                Err(e) => {
                    &&& e is NotFound ==> forall|j: int|
                        0 <= j < old(self)@.len() ==> (#[trigger] old(self)@[j]).id != row_id
                    &&& e is AlreadyDestroyed ==> exists|j: int|
                        0 <= j < old(self)@.len() && (#[trigger] old(self)@[j]).id == row_id && !old(
                            self,
                        )@[j].spec_active()
                    &&& (e is NotFound || e is AlreadyDestroyed)
                },
            },
            (r is Ok) == exists|i: int|
                0 <= i < old(self)@.len() && (#[trigger] old(self)@[i]).id == row_id && old(
                    self,
                )@[i].spec_active(),
    {
        let found = self.index_of(row_id);
        match found {
            None => Err(Error::NotFound),
            Some(i) => {
                let row = &self.rows[i];
                if row.destroyed_at.is_some() {
                    proof {
                        assert forall|j: int|
                            0 <= j < self@.len() && (#[trigger] self@[j]).id == row_id && self@[j].spec_active() implies false by {
                            if j != i {
                                assert(self@[j].id != self@[i as int].id);
                            }
                        }
                    }
                    return Err(Error::AlreadyDestroyed);
                }
                let old_row = self.rows.remove(i);
                let new_row = ChallengeDeployment {
                    data: None,
                    destroyed_at: Some(now),
                    ..old_row
                };
                self.rows.insert(i, new_row);
                proof {
                    assert(self@ =~= old(self)@.update(
                        i as int,
                        ChallengeDeployment {
                            data: None,
                            destroyed_at: Some(now),
                            ..old(self)@[i as int]
                        },
                    ));
                }
                Ok(())
            },
        }
    }

    /// Deletes a pending row after a failed apply, freeing the slot for a
    /// retry; deleting a row that is already gone is a no-op.  Never used
    /// on a deployed row.
    pub fn drop_pending(&mut self, row_id: i32)
        requires
            old(self).wf(),
            forall|i: int|
                0 <= i < old(self)@.len() && (#[trigger] old(self)@[i]).id == row_id ==> !old(
                    self,
                )@[i].deployed,
        ensures
            final(self).wf(),
            (forall|i: int| 0 <= i < old(self)@.len() ==> (#[trigger] old(self)@[i]).id != row_id)
                ==> final(self)@ == old(self)@,
            (exists|i: int| 0 <= i < old(self)@.len() && (#[trigger] old(self)@[i]).id == row_id)
                ==> exists|i: int|
                0 <= i < old(self)@.len() && (#[trigger] old(self)@[i]).id == row_id && spec_drop_at(
                    old(self)@,
                    final(self)@,
                    i,
                ),
    {
        let found = self.index_of(row_id);
        match found {
            None => (),
            Some(i) => {
                self.rows.remove(i);
            },
        }
    }
}

/// Law: a successful claim leaves its slot occupied, so of two deploys
/// racing for one slot at most one can see the claim succeed; the later
/// one is answered `AlreadyDeployed` by the claim contract.
pub proof fn lemma_claim_excludes_second(
    pre: Seq<ChallengeDeployment>,
    post: Seq<ChallengeDeployment>,
    ret: ChallengeDeployment,
    challenge_id: i32,
    team_id: Option<i32>,
    now: i64,
)
    requires
        spec_claim_ok(pre, post, ret, challenge_id, team_id, now),
    ensures
        spec_has_active(post, challenge_id, team_id),
{
    assert(post[pre.len() as int].spec_active());
    assert(spec_same_slot(post[pre.len() as int], challenge_id, team_id));
}

/// Law: a well-formed row set holds at most one live row per slot; any
/// two active rows of the same slot are the same row.
pub proof fn lemma_slot_exclusive(rows: Seq<ChallengeDeployment>, i: int, j: int)
    requires
        spec_at_most_one_active(rows),
        0 <= i < rows.len(),
        0 <= j < rows.len(),
        rows[i].spec_active(),
        rows[j].spec_active(),
        rows[i].challenge_id == rows[j].challenge_id,
        rows[i].team_id == rows[j].team_id,
    ensures
        i == j,
{
}

/// Law: after a deploy succeeds — claim, then finalize of the claimed
/// row — that row is deployed, carries data, and is not destroyed.
pub proof fn lemma_deploy_success_row(
    pre: Seq<ChallengeDeployment>,
    post: Seq<ChallengeDeployment>,
    i: int,
    data: DeploymentData,
    expired_at: Option<i64>,
)
    requires
        spec_finalize_at(pre, post, i, data, expired_at),
    ensures
        post[i].deployed,
        post[i].data == Some(data),
        post[i].destroyed_at is None,
{
}

/// Law: after a teardown of any row — whatever its prior state — its
/// destruction time is set and its data is gone.
pub proof fn lemma_teardown_row(
    pre: Seq<ChallengeDeployment>,
    post: Seq<ChallengeDeployment>,
    i: int,
    now: i64,
)
    requires
        spec_destroy_at(pre, post, i, now),
    ensures
        post[i].destroyed_at is Some,
        post[i].data is None,
{
}

/// Law: teardown is idempotent at the control surface: destroying a
/// row frees its slot, so a repeated destroy request finds no live row
/// for the slot and is answered as a successful no-op by the handler.
pub proof fn lemma_destroy_frees_slot(
    pre: Seq<ChallengeDeployment>,
    post: Seq<ChallengeDeployment>,
    i: int,
    now: i64,
    challenge_id: i32,
    team_id: Option<i32>,
)
    requires
        spec_at_most_one_active(pre),
        spec_destroy_at(pre, post, i, now),
        spec_same_slot(pre[i], challenge_id, team_id),
    ensures
        !spec_has_active(post, challenge_id, team_id),
{
    assert forall|j: int|
        0 <= j < post.len() && (#[trigger] post[j]).spec_active() implies !spec_same_slot(
        post[j],
        challenge_id,
        team_id,
    ) by {
        if j != i {
            assert(post[j] == pre[j]);
            lemma_slot_if(pre, i, j, challenge_id, team_id);
        }
    }
}

/// Law: after a failed deploy is dropped, no row of the slot remains
/// unless another row already occupied it before the claim.
pub proof fn lemma_drop_frees_slot(
    pre: Seq<ChallengeDeployment>,
    post: Seq<ChallengeDeployment>,
    i: int,
    challenge_id: i32,
    team_id: Option<i32>,
)
    requires
        spec_at_most_one_active(pre),
        spec_drop_at(pre, post, i),
        pre[i].spec_active(),
        spec_same_slot(pre[i], challenge_id, team_id),
    ensures
        !spec_has_active(post, challenge_id, team_id),
{
    assert forall|j: int|
        0 <= j < post.len() && (#[trigger] post[j]).spec_active() implies !spec_same_slot(
        post[j],
        challenge_id,
        team_id,
    ) by {
        if j < i {
            assert(post[j] == pre[j]);
            lemma_slot_if(pre, i, j, challenge_id, team_id);
        } else {
            assert(post[j] == pre[j + 1]);
            lemma_slot_if(pre, i, j + 1, challenge_id, team_id);
        }
    }
}

proof fn lemma_slot_if(
    pre: Seq<ChallengeDeployment>,
    i: int,
    j: int,
    challenge_id: i32,
    team_id: Option<i32>,
)
    requires
        spec_at_most_one_active(pre),
        0 <= i < pre.len(),
        0 <= j < pre.len(),
        i != j,
        pre[i].spec_active(),
        spec_same_slot(pre[i], challenge_id, team_id),
        pre[j].spec_active(),
    ensures
        !spec_same_slot(pre[j], challenge_id, team_id),
{
    if spec_same_slot(pre[j], challenge_id, team_id) {
        lemma_slot_exclusive(pre, i, j);
    }
}

} // verus!
