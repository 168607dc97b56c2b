//! Per-entity heartbeat state machine.
//!
//! A heartbeat record carries the reachability status and two timestamps.
//! The only two mutators are `touch` (a heartbeat arrived) and `expire`
//! (the scheduler declared the deadline missed); no other code path sets the
//! status, which preserves the idempotence guarantees stated below.

use vstd::prelude::*;

verus! {

/// Reachability status of a monitored entity.
#[derive(Clone, Copy, Debug, PartialEq, Eq, Structural)]
pub enum UpStatus {
    /// Created but no heartbeat received yet.
    Uninitialized,
    /// Reachable: a heartbeat arrived within the deadline.
    Up,
    /// Unreachable: the deadline passed without a heartbeat.
    Down,
    /// Externally-set override; automatic transitions leave it alone.
    Maintenance,
}

/// Status plus the two timestamps the transitions maintain, in seconds.
#[derive(Clone, Copy, Debug, PartialEq, Eq, Structural)]
pub struct Heartbeat {
    pub status: UpStatus,
    /// When the last heartbeat arrived (creation time if none yet).
    pub touched_at: u64,
    /// When the status last changed (creation time if never).
    pub state_changed_at: u64,
}

impl Heartbeat {
    /// Both timestamps lie at or before the given instant.
    pub open spec fn stamps_le(self, now: u64) -> bool {
        self.touched_at <= now && self.state_changed_at <= now
    }

    /// Model of `touch`: the record after a heartbeat at `now`, and the
    /// elapsed downtime if this heartbeat is a recovery.
    pub open spec fn spec_touch(self, now: u64) -> (Heartbeat, Option<u64>) {
        if self.status is Down {
            (
                Heartbeat { status: UpStatus::Up, touched_at: now, state_changed_at: now },
                Some((now - self.state_changed_at) as u64),
            )
        } else {
            (Heartbeat { touched_at: now, ..self }, None)
        }
    }

    /// Model of `expire`: the record after the scheduler declares the
    /// deadline missed at `now`, and the elapsed reachable time if this
    /// actually is a transition.
    pub open spec fn spec_expire(self, now: u64) -> (Heartbeat, Option<u64>) {
        if self.status is Up || self.status is Uninitialized {
            (
                Heartbeat { status: UpStatus::Down, state_changed_at: now, ..self },
                Some((now - self.state_changed_at) as u64),
            )
        } else {
            (self, None)
        }
    }

    /// A fresh record: no heartbeat yet, both stamps at creation time.
    pub fn new(now: u64) -> (r: Heartbeat)
        ensures
            r == (Heartbeat { status: UpStatus::Uninitialized, touched_at: now, state_changed_at: now }),
    {
        Heartbeat { status: UpStatus::Uninitialized, touched_at: now, state_changed_at: now }
    }

    /// Record a heartbeat at `now`.
    ///
    /// From `Down` this is a recovery: the status flips to `Up`, both stamps
    /// move to `now`, and the time spent down is returned.  From any other
    /// status only `touched_at` moves: recoveries alone are notify-worthy,
    /// so the signal volume follows state changes, not heartbeat volume.
    pub fn touch(&mut self, now: u64) -> (r: Option<u64>)
        requires
            old(self).stamps_le(now),
        ensures
            (*final(self), r) == old(self).spec_touch(now),
            old(self).status is Down ==> r == Some((now - old(self).state_changed_at) as u64)
                && final(self).status is Up
                && final(self).state_changed_at == now,
            !(old(self).status is Down) ==> r is None
                && final(self).status == old(self).status
                && final(self).state_changed_at == old(self).state_changed_at,
            final(self).touched_at == now,
            final(self).stamps_le(now),
    {
        if self.status == UpStatus::Down {
            let downtime = now - self.state_changed_at;
            self.status = UpStatus::Up;
            self.state_changed_at = now;
            self.touched_at = now;
            Some(downtime)
        } else {
            self.touched_at = now;
            None
        }
    }

    /// Declare the deadline missed at `now`.
    ///
    /// From `Up` or `Uninitialized` the status drops to `Down` and the time
    /// spent reachable (or since creation) is returned.  From `Down` or
    /// `Maintenance` nothing changes and `None` comes back, so the scheduler
    /// may re-evaluate a still-overdue entity on every pass without firing
    /// a duplicate alert.
    pub fn expire(&mut self, now: u64) -> (r: Option<u64>)
        requires
            old(self).stamps_le(now),
        ensures
            (*final(self), r) == old(self).spec_expire(now),
            (old(self).status is Up || old(self).status is Uninitialized)
                ==> r == Some((now - old(self).state_changed_at) as u64)
                    && final(self).status is Down
                    && final(self).state_changed_at == now,
            (old(self).status is Down || old(self).status is Maintenance)
                ==> r is None && *final(self) == *old(self),
            final(self).touched_at == old(self).touched_at,
            final(self).stamps_le(now),
    {
        if self.status == UpStatus::Up || self.status == UpStatus::Uninitialized {
            let uptime = now - self.state_changed_at;
            self.status = UpStatus::Down;
            self.state_changed_at = now;
            Some(uptime)
        } else {
            None
        }
    }
}

/// `expire` is idempotent on an already-`Down` record: however many further
/// times the scheduler evaluates it, the record is unchanged and no duration
/// (hence no alert) is produced.
pub proof fn lemma_expire_idempotent(hb: Heartbeat, now1: u64, now2: u64)
    requires
        hb.status is Down,
    ensures
        hb.spec_expire(now1) == (hb, None::<u64>),
        hb.spec_expire(now1).0.spec_expire(now2) == (hb, None::<u64>),
{
}

/// Expiring and then expiring again never moves `state_changed_at` past the
/// first transition: the downtime clock starts at the first missed deadline.
pub proof fn lemma_expire_keeps_first_transition(hb: Heartbeat, now1: u64, now2: u64)
    requires
        hb.status is Up || hb.status is Uninitialized,
    ensures
        hb.spec_expire(now1).0.status is Down,
        hb.spec_expire(now1).0.spec_expire(now2).0.state_changed_at == now1,
{
}

} // verus!
