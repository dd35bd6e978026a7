//! The lease reaper: at startup every live row with a lease is scheduled
//! for teardown at its expiry, clamped to now when already past; the
//! database column is authoritative and the schedule is rebuilt from it
//! after every restart.

use vstd::prelude::*;

use crate::row::ChallengeDeployment;
use crate::store::DeploymentStore;

verus! {

/// One scheduled teardown: the row to destroy and the seconds to wait.
#[derive(Debug, Clone, Copy, PartialEq, Eq, Structural)]
pub struct ScheduledTeardown {
    pub row_id: i32,
    pub delay: i64,
}

/// Whether a row is due for the startup sweep: not destroyed, with a
/// lease.
pub open spec fn spec_due(r: ChallengeDeployment) -> bool {
    r.destroyed_at is None && r.expired_at is Some
}

/// The seconds until a lease expires, clamped to zero when it already
/// has.
pub open spec fn spec_delay(expired_at: i64, now: i64) -> int {
    if expired_at <= now {
        0
    } else {
        expired_at - now
    }
}

/// The schedule the startup sweep builds: one entry per due row, in row
/// order, with the clamped delay.
pub open spec fn spec_sweep(rows: Seq<ChallengeDeployment>, now: i64) -> Seq<(i32, int)>
    decreases rows.len(),
{
    if rows.len() == 0 {
        Seq::empty()
    } else {
        spec_sweep(rows.drop_last(), now) + if spec_due(rows.last()) {
            seq![(rows.last().id, spec_delay(rows.last().expired_at->Some_0, now))]
        } else {
            Seq::empty()
        }
    }
}

proof fn lemma_sweep_push(rows: Seq<ChallengeDeployment>, now: i64, x: ChallengeDeployment)
    ensures
        spec_sweep(rows.push(x), now) == spec_sweep(rows, now) + if spec_due(x) {
            seq![(x.id, spec_delay(x.expired_at->Some_0, now))]
        } else {
            Seq::empty()
        },
{
    assert(rows.push(x).drop_last() =~= rows);
    assert(rows.push(x).last() == x);
}

/// Law: the startup sweep schedules every lease that is outstanding at
/// boot — each non-destroyed row with a lease appears in the schedule,
/// with its delay clamped to now when the lease is already past.
pub proof fn lemma_sweep_covers(rows: Seq<ChallengeDeployment>, now: i64, i: int)
    requires
        0 <= i < rows.len(),
        spec_due(rows[i]),
    ensures
        exists|j: int|
            0 <= j < spec_sweep(rows, now).len() && #[trigger] spec_sweep(rows, now)[j] == (
                rows[i].id,
                spec_delay(rows[i].expired_at->Some_0, now),
            ),
    decreases rows.len(),
{
    if i == rows.len() - 1 {
        let j = spec_sweep(rows.drop_last(), now).len() as int;
        assert(rows.last() == rows[i]);
        assert(spec_sweep(rows, now)[j] == (
            rows[i].id,
            spec_delay(rows[i].expired_at->Some_0, now),
        ));
    } else {
        assert(rows.drop_last()[i] == rows[i]);
        lemma_sweep_covers(rows.drop_last(), now, i);
        let j = choose|j: int|
            0 <= j < spec_sweep(rows.drop_last(), now).len() && #[trigger] spec_sweep(
                rows.drop_last(),
                now,
            )[j] == (rows[i].id, spec_delay(rows[i].expired_at->Some_0, now));
        assert(spec_sweep(rows, now)[j] == spec_sweep(rows.drop_last(), now)[j]);
    }
}

/// Builds the startup schedule: one teardown per non-destroyed row with
/// a lease, at the clamped delay.
pub fn startup_sweep(store: &DeploymentStore, now: i64) -> (v: Vec<ScheduledTeardown>)
    requires
        now >= 0,
    ensures
        v@.map_values(|s: ScheduledTeardown| (s.row_id, s.delay as int)) =~= spec_sweep(
            store@,
            now,
        ),
{
    let mut v: Vec<ScheduledTeardown> = Vec::new();
    let n = store.len();
    let mut i: usize = 0;
    while i < n
        invariant
            i <= n,
            n == store@.len(),
            now >= 0,
            v@.map_values(|s: ScheduledTeardown| (s.row_id, s.delay as int)) =~= spec_sweep(
                store@.subrange(0, i as int),
                now,
            ),
        decreases n - i,
    {
        let row = store.row_at(i);
        let ghost before = v@;
        if row.destroyed_at.is_none() {
            match row.expired_at {
                Some(expired_at) => {
                    let delay: i64 = if expired_at <= now {
                        0
                    } else {
                        expired_at - now
                    };
                    v.push(ScheduledTeardown { row_id: row.id, delay });
                    proof {
                        assert(v@.map_values(|s: ScheduledTeardown| (s.row_id, s.delay as int))
                            =~= before.map_values(|s: ScheduledTeardown| (s.row_id, s.delay as int))
                            + seq![(row.id, spec_delay(expired_at, now))]);
                    }
                },
                None => (),
            }
        }
        proof {
            lemma_sweep_push(store@.subrange(0, i as int), now, store@[i as int]);
            assert(store@.subrange(0, i as int).push(store@[i as int]) =~= store@.subrange(
                0,
                i as int + 1,
            ));
        }
        i = i + 1;
    }
    proof {
        assert(store@.subrange(0, n as int) =~= store@);
    }
    v
}

/// The seconds to sleep before tearing a fresh lease down.
pub fn lease_delay(expired_at: i64, now: i64) -> (d: i64)
    requires
        0 <= now <= expired_at,
    ensures
        d == expired_at - now,
{
    expired_at - now
}

} // verus!
