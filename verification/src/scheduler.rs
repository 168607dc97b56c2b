//! Deadline scheduler: detects missed heartbeats without per-entity timers.
//!
//! One perpetual loop per process scans the whole registry each cycle: it
//! expires every entity whose deadline has passed and computes how long to
//! sleep until the next deadline, floored so the loop never busy-spins.  A
//! heartbeat that extends a deadline while the loop sleeps is safe: the next
//! cycle recomputes everything from live timestamps, so the estimate can
//! only go stale toward waking too late, never toward declaring an entity
//! overdue early.  The caller runs the loop: each cycle it calls `run_cycle`
//! (or `plan_cycle` under a read lock and `Store::expire_overdue` under a
//! write lock), hands the returned events to the dispatcher, and sleeps for
//! the returned duration.

use vstd::prelude::*;
use crate::entity::{Entity, EntityView};
use crate::store::{spec_cycle_events, spec_expire_all, Store};

verus! {

/// Least seconds a cycle ever sleeps, so an empty or all-overdue registry
/// does not make the loop spin.
pub const DEFAULT_SLEEP_FLOOR_SECS: u64 = 5;

/// What one read pass over the registry decided.
#[derive(Debug)]
pub struct CyclePlan {
    /// Ids of the entities whose deadline has passed, in registry order.
    pub overdue: Vec<u64>,
    /// Seconds to sleep before the next cycle.
    pub sleep_for: u64,
}

/// Ids of the overdue entities, in registry order.
pub open spec fn spec_overdue_ids(s: Seq<EntityView>, now: u64) -> Seq<u64>
    decreases s.len(),
{
    if s.len() == 0 {
        Seq::empty()
    } else {
        let rest = spec_overdue_ids(s.drop_last(), now);
        if s.last().is_overdue(now) {
            rest.push(s.last().id)
        } else {
            rest
        }
    }
}

/// The least remaining time until a deadline among the watched entities
/// that are not yet due; `None` when no such entity exists.
pub open spec fn spec_min_remaining(s: Seq<EntityView>, now: u64) -> Option<int>
    decreases s.len(),
{
    if s.len() == 0 {
        None
    } else {
        let rest = spec_min_remaining(s.drop_last(), now);
        let e = s.last();
        if e.monitored() && e.deadline() > now {
            let r = e.deadline() - now;
            match rest {
                None => Some(r),
                Some(m) => Some(
                    if r < m {
                        r
                    } else {
                        m
                    },
                ),
            }
        } else {
            rest
        }
    }
}

/// The sleep a cycle computes: the least remaining time, floored at the
/// configured minimum; the floor alone when no deadline is pending.
pub open spec fn spec_sleep_for(s: Seq<EntityView>, now: u64, floor: u64) -> int {
    match spec_min_remaining(s, now) {
        None => floor as int,
        Some(m) => if m > floor {
            m
        } else {
            floor as int
        },
    }
}

impl Store {
    /// The scheduler's read pass: scan every entity once, record each
    /// overdue id, and compute the floored sleep until the next deadline.
    #[verifier::loop_isolation(false)]
    pub fn plan_cycle(&self, now: u64, floor: u64) -> (plan: CyclePlan)
        requires
            self@.wf(),
            self@.stamps_le(now),
        ensures
            plan.overdue@ == spec_overdue_ids(self@.entities, now),
            plan.sleep_for == spec_sleep_for(self@.entities, now, floor),
            plan.sleep_for >= floor,
            forall|i: int|
                0 <= i < self@.entities.len() && (#[trigger] self@.entities[i]).is_overdue(now)
                    ==> plan.overdue@.contains(self@.entities[i].id),
    {
        let ghost s = self@.entities;
        let entities = self.entities();
        let n = entities.len();
        let mut overdue: Vec<u64> = Vec::new();
        let mut min_rem: Option<u64> = None;
        let mut i: usize = 0;
        proof {
            assert(overdue@ =~= spec_overdue_ids(s.take(0), now));
        }
        while i < n
            invariant
                i <= n,
                n == s.len(),
                entities@.map_values(|e: Entity| e@) == s,
                overdue@ == spec_overdue_ids(s.take(i as int), now),
                min_rem is None <==> spec_min_remaining(s.take(i as int), now) is None,
                min_rem matches Some(v) ==> spec_min_remaining(s.take(i as int), now) == Some(
                    v as int,
                ),
            decreases n - i,
        {
            proof {
                assert(s[i as int] == entities@[i as int]@);
                assert(s.take(i + 1).drop_last() =~= s.take(i as int));
                assert(s.take(i + 1).last() == s[i as int]);
            }
            let hb = entities[i].heartbeat;
            let monitored = match hb.status {
                crate::heartbeat::UpStatus::Up => true,
                crate::heartbeat::UpStatus::Uninitialized => true,
                _ => false,
            };
            if monitored {
                let elapsed = now - hb.touched_at;
                let ud = entities[i].up_delay;
                if elapsed >= ud {
                    overdue.push(entities[i].id);
                    proof {
                        assert(overdue@ =~= spec_overdue_ids(s.take(i + 1), now));
                    }
                } else {
                    let remaining = ud - elapsed;
                    proof {
                        assert(remaining == s[i as int].deadline() - now);
                    }
                    min_rem = match min_rem {
                        None => Some(remaining),
                        Some(v) => Some(
                            if remaining < v {
                                remaining
                            } else {
                                v
                            },
                        ),
                    };
                }
            }
            i += 1;
        }
        proof {
            assert(s.take(n as int) =~= s);
            lemma_overdue_ids_complete(s, now);
        }
        let sleep_for = match min_rem {
            None => floor,
            Some(v) => if v > floor {
                v
            } else {
                floor
            },
        };
        CyclePlan { overdue, sleep_for }
    }

    /// One whole scheduler cycle: expire every overdue entity, and return
    /// the dispatch events (one per entity that actually transitioned, with
    /// the seconds it had been reachable) together with the floored sleep
    /// until the next deadline.
    ///
    /// No entity whose deadline has passed is skipped in the cycle that
    /// detected it, and nothing else in the registry changes.
    pub fn run_cycle(&mut self, now: u64, floor: u64) -> (r: (Vec<(Entity, u64)>, u64))
        requires
            old(self)@.wf(),
            old(self)@.stamps_le(now),
        ensures
            final(self)@.wf(),
            final(self)@.stamps_le(now),
            final(self)@.invites == old(self)@.invites,
            final(self)@.entities == spec_expire_all(old(self)@.entities, now),
            r.0@.map_values(|p: (Entity, u64)| (p.0@, p.1)) == spec_cycle_events(
                old(self)@.entities,
                now,
            ),
            r.1 == spec_sleep_for(old(self)@.entities, now, floor),
            r.1 >= floor,
            forall|i: int|
                0 <= i < old(self)@.entities.len() && (#[trigger] old(self)@.entities[i]).is_overdue(
                    now,
                ) ==> final(self)@.entities[i].heartbeat.status is Down
                    && final(self)@.entities[i].heartbeat.state_changed_at == now,
            forall|i: int|
                0 <= i < old(self)@.entities.len() && !(
                #[trigger] old(self)@.entities[i]).is_overdue(now) ==> final(self)@.entities[i]
                    == old(self)@.entities[i],
    {
        let plan = self.plan_cycle(now, floor);
        let events = self.expire_overdue(now);
        (events, plan.sleep_for)
    }
}

/// Every overdue entity's id is recorded by the read pass that saw it.
pub proof fn lemma_overdue_ids_complete(s: Seq<EntityView>, now: u64)
    ensures
        forall|i: int|
            0 <= i < s.len() && (#[trigger] s[i]).is_overdue(now) ==> spec_overdue_ids(
                s,
                now,
            ).contains(s[i].id),
    decreases s.len(),
{
    if s.len() > 0 {
        let prefix = s.drop_last();
        lemma_overdue_ids_complete(prefix, now);
        let rest = spec_overdue_ids(prefix, now);
        let whole = spec_overdue_ids(s, now);
        assert forall|i: int| 0 <= i < s.len() && (#[trigger] s[i]).is_overdue(now) implies whole.contains(
            s[i].id,
        ) by {
            if i < s.len() - 1 {
                assert(prefix[i] == s[i]);
                assert(rest.contains(prefix[i].id));
                let w = choose|w: int| 0 <= w < rest.len() && rest[w] == prefix[i].id;
                if s.last().is_overdue(now) {
                    assert(whole[w] == rest[w]);
                } else {
                    assert(whole == rest);
                }
            } else {
                assert(s.last().is_overdue(now));
                assert(whole.last() == s.last().id);
            }
        }
    }
}

/// The scheduler's safety law: a cycle at `now` sleeps no less than its
/// configured floor, and no entity whose deadline has passed at `now` is
/// skipped by that same cycle — its id is in the cycle's overdue list and
/// the cycle's write phase leaves it `Down`.
pub proof fn lemma_cycle_handles_all_overdue(s: Seq<EntityView>, now: u64, floor: u64)
    ensures
        spec_sleep_for(s, now, floor) >= floor,
        forall|i: int|
            0 <= i < s.len() && (#[trigger] s[i]).is_overdue(now) ==> spec_overdue_ids(
                s,
                now,
            ).contains(s[i].id) && spec_expire_all(s, now)[i].heartbeat.status is Down,
{
    lemma_overdue_ids_complete(s, now);
}

} // verus!
