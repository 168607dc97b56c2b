//! The registry of monitored entities and its lookup indices.
//!
//! One store instance is the single authoritative, shared mutable resource:
//! every entity is reachable by its id, by its bearer token and by each of
//! its chat identities, and the well-formedness invariant keeps those three
//! keys unique so that every index entry resolves to exactly one entity.
//! All mutation goes through the operations here; callers that share the
//! store across tasks serialize access around it.

use vstd::prelude::*;
use vstd::pervasive::VecAdditionalExecFns;
use crate::entity::{Entity, EntityView, Invite, InviteView};
use crate::text::str_eq;

verus! {

/// Why a store operation could not name its subject.
#[derive(Clone, Copy, Debug, PartialEq, Eq, Structural)]
pub enum StoreError {
    /// The operation named an id absent from the store.
    EntityNotFound,
}

/// Why an invite cannot be created.
#[derive(Clone, Copy, Debug, PartialEq, Eq, Structural)]
pub enum InviteError {
    /// The named owner is absent from the store.
    OwnerNotFound,
    /// The owner has spent its whole invite budget.
    InvitesExhausted,
}

/// Mathematical view of the store: the entities and the invites it holds.
#[verifier::ext_equal]
pub struct StoreView {
    pub entities: Seq<EntityView>,
    pub invites: Seq<InviteView>,
}

/// Some entity carries this id.
pub open spec fn spec_has_entity(s: Seq<EntityView>, id: u64) -> bool {
    exists|i: int| 0 <= i < s.len() && s[i].id == id
}

/// The position of the entity with this id (unique when the store is
/// well-formed).
pub open spec fn spec_entity_index(s: Seq<EntityView>, id: u64) -> int {
    choose|i: int| 0 <= i < s.len() && s[i].id == id
}

/// The entity with this id.
pub open spec fn spec_entity(s: Seq<EntityView>, id: u64) -> EntityView {
    s[spec_entity_index(s, id)]
}

/// Some entity carries this bearer token.
pub open spec fn spec_has_token(s: Seq<EntityView>, token: Seq<char>) -> bool {
    exists|i: int| 0 <= i < s.len() && s[i].access_token == token
}

/// The position of the entity with this bearer token.
pub open spec fn spec_token_index(s: Seq<EntityView>, token: Seq<char>) -> int {
    choose|i: int| 0 <= i < s.len() && s[i].access_token == token
}

/// The id of the entity holding this bearer token.
pub open spec fn spec_token_owner(s: Seq<EntityView>, token: Seq<char>) -> u64 {
    s[spec_token_index(s, token)].id
}

/// Some entity carries this chat identity on one of its channels.
pub open spec fn spec_has_chat(s: Seq<EntityView>, cid: i64) -> bool {
    exists|i: int| 0 <= i < s.len() && s[i].has_chat_id(cid)
}

/// The position of the entity with this chat identity.
pub open spec fn spec_chat_index(s: Seq<EntityView>, cid: i64) -> int {
    choose|i: int| 0 <= i < s.len() && s[i].has_chat_id(cid)
}

/// Some invite carries this token.
pub open spec fn spec_has_invite(s: Seq<InviteView>, token: Seq<char>) -> bool {
    exists|i: int| 0 <= i < s.len() && s[i].token == token
}

/// The position of the invite with this token.
pub open spec fn spec_invite_index(s: Seq<InviteView>, token: Seq<char>) -> int {
    choose|i: int| 0 <= i < s.len() && s[i].token == token
}

/// Registry invariant over the entities: ids, bearer tokens and chat
/// identities each resolve to at most one entity, and every entity is
/// internally consistent.
pub open spec fn entities_wf(s: Seq<EntityView>) -> bool {
    &&& forall|i: int, j: int|
        0 <= i < s.len() && 0 <= j < s.len() && i != j ==> #[trigger] s[i].id != #[trigger] s[j].id
    &&& forall|i: int, j: int|
        0 <= i < s.len() && 0 <= j < s.len() && i != j ==> #[trigger] s[i].access_token
            != #[trigger] s[j].access_token
    &&& forall|i: int, j: int, cid: i64|
        0 <= i < s.len() && 0 <= j < s.len() && i != j ==> !(#[trigger] s[i].has_chat_id(cid)
            && #[trigger] s[j].has_chat_id(cid))
    &&& forall|i: int| 0 <= i < s.len() ==> #[trigger] s[i].wf()
}

/// Invite tokens resolve to at most one invite.
pub open spec fn invites_wf(s: Seq<InviteView>) -> bool {
    forall|i: int, j: int|
        0 <= i < s.len() && 0 <= j < s.len() && i != j ==> #[trigger] s[i].token
            != #[trigger] s[j].token
}

impl StoreView {
    pub open spec fn wf(self) -> bool {
        entities_wf(self.entities) && invites_wf(self.invites)
    }

    /// Every heartbeat timestamp lies at or before `now`; callers that pass
    /// a monotonic clock maintain this across operations.
    pub open spec fn stamps_le(self, now: u64) -> bool {
        forall|i: int|
            0 <= i < self.entities.len() ==> (#[trigger] self.entities[i]).heartbeat.stamps_le(now)
    }
}

/// The concurrent registry of all monitored entities and their invites.
#[derive(Debug)]
pub struct Store {
    entities: Vec<Entity>,
    invites: Vec<Invite>,
}

impl View for Store {
    type V = StoreView;

    closed spec fn view(&self) -> StoreView {
        StoreView {
            entities: self.entities@.map_values(|e: Entity| e@),
            invites: self.invites@.map_values(|v: Invite| v@),
        }
    }
}

impl Store {
    /// An empty registry.
    pub fn new() -> (r: Store)
        ensures
            r@.entities.len() == 0,
            r@.invites.len() == 0,
            r@.wf(),
    {
        let r = Store { entities: Vec::new(), invites: Vec::new() };
        proof {
            assert(r@.entities =~= Seq::<EntityView>::empty());
            assert(r@.invites =~= Seq::<InviteView>::empty());
        }
        r
    }

    /// How many entities the registry holds.
    pub fn num_entities(&self) -> (n: usize)
        ensures
            n == self@.entities.len(),
    {
        self.entities.len()
    }

    /// Read-only access to the entities, for the scheduler's scan pass.
    pub fn entities(&self) -> (r: &Vec<Entity>)
        ensures
            r@.map_values(|e: Entity| e@) == self@.entities,
    {
        &self.entities
    }

    /// Read-only access to the invites.
    pub fn invites(&self) -> (r: &Vec<Invite>)
        ensures
            r@.map_values(|v: Invite| v@) == self@.invites,
    {
        &self.invites
    }

    /// Add an entity to the registry and all its indices in one step.
    ///
    /// A duplicate id is a logic error upstream, not a store-level fault:
    /// the prior value is overwritten (last write wins) and `true` comes
    /// back so the caller can report the anomaly.
    #[verifier::loop_isolation(false)]
    pub fn insert(&mut self, e: Entity) -> (dup: bool)
        requires
            old(self)@.wf(),
            e@.wf(),
            forall|i: int|
                0 <= i < old(self)@.entities.len() && (#[trigger] old(self)@.entities[i]).id
                    != e@.id ==> old(self)@.entities[i].access_token != e@.access_token,
            forall|i: int, cid: i64|
                0 <= i < old(self)@.entities.len() && old(self)@.entities[i].id != e@.id ==> !(
                #[trigger] old(self)@.entities[i].has_chat_id(cid) && e@.has_chat_id(cid)),
        ensures
            dup == spec_has_entity(old(self)@.entities, e@.id),
            dup ==> final(self)@.entities == old(self)@.entities.update(
                spec_entity_index(old(self)@.entities, e@.id),
                e@,
            ),
            !dup ==> final(self)@.entities == old(self)@.entities.push(e@),
            final(self)@.invites == old(self)@.invites,
            final(self)@.wf(),
    {
        let ghost s0 = self@.entities;
        let ghost v0 = self@.invites;
        let n = self.entities.len();
        let mut i: usize = 0;
        while i < n
            invariant
                n == s0.len(),
                self@.entities == s0,
                self@.invites == v0,
                i <= n,
                forall|k: int| 0 <= k < i ==> (#[trigger] s0[k]).id != e@.id,
            decreases n - i,
        {
            proof {
                assert(s0[i as int] == self.entities@[i as int]@);
            }
            if self.entities[i].id == e.id {
                let ghost ei = e@;
                self.entities.set(i, e);
                proof {
                    assert(s0[i as int].id == ei.id);
                    assert(spec_has_entity(s0, ei.id));
                    let j = spec_entity_index(s0, ei.id);
                    assert(0 <= j < s0.len() && s0[j].id == ei.id);
                    assert(j == i);
                    assert(self@.entities =~= s0.update(i as int, ei));
                    lemma_wf_after_replace(s0, i as int, ei);
                }
                return true;
            }
            i += 1;
        }
        let ghost ei = e@;
        self.entities.push(e);
        proof {
            assert(!spec_has_entity(s0, ei.id));
            assert(self@.entities =~= s0.push(ei));
            lemma_wf_after_push(s0, ei);
        }
        false
    }

    /// Point lookup by id.
    #[verifier::loop_isolation(false)]
    pub fn get(&self, id: u64) -> (r: Option<&Entity>)
        requires
            self@.wf(),
        ensures
            r is Some <==> spec_has_entity(self@.entities, id),
            r matches Some(e) ==> e@ == spec_entity(self@.entities, id) && e@.id == id,
    {
        let n = self.entities.len();
        let mut i: usize = 0;
        while i < n
            invariant
                self@.wf(),
                n == self@.entities.len(),
                i <= n,
                forall|k: int| 0 <= k < i ==> (#[trigger] self@.entities[k]).id != id,
            decreases n - i,
        {
            proof {
                assert(self@.entities[i as int] == self.entities@[i as int]@);
            }
            if self.entities[i].id == id {
                proof {
                    assert(self@.entities[i as int].id == id);
                    assert(spec_has_entity(self@.entities, id));
                    let j = spec_entity_index(self@.entities, id);
                    assert(0 <= j < self@.entities.len() && self@.entities[j].id == id);
                    assert(j == i);
                }
                return Some(&self.entities[i]);
            }
            i += 1;
        }
        None
    }

    /// Resolve a bearer token to the id of the entity holding it.
    #[verifier::loop_isolation(false)]
    pub fn get_by_token(&self, token: &str) -> (r: Option<u64>)
        requires
            self@.wf(),
        ensures
            r is Some <==> spec_has_token(self@.entities, token@),
            r matches Some(uid) ==> spec_has_entity(self@.entities, uid) && spec_entity(
                self@.entities,
                uid,
            ).access_token == token@ && uid == spec_token_owner(self@.entities, token@),
    {
        let n = self.entities.len();
        let mut i: usize = 0;
        while i < n
            invariant
                self@.wf(),
                n == self@.entities.len(),
                i <= n,
                forall|k: int|
                    0 <= k < i ==> (#[trigger] self@.entities[k]).access_token != token@,
            decreases n - i,
        {
            proof {
                assert(self@.entities[i as int] == self.entities@[i as int]@);
            }
            if str_eq(self.entities[i].access_token.as_str(), token) {
                let uid = self.entities[i].id;
                proof {
                    assert(self@.entities[i as int].access_token == token@);
                    assert(self@.entities[i as int].id == uid);
                    assert(spec_has_token(self@.entities, token@));
                    assert(spec_has_entity(self@.entities, uid));
                    let j = spec_entity_index(self@.entities, uid);
                    assert(0 <= j < self@.entities.len() && self@.entities[j].id == uid);
                    assert(j == i);
                    let jt = spec_token_index(self@.entities, token@);
                    assert(0 <= jt < self@.entities.len() && self@.entities[jt].access_token
                        == token@);
                    assert(jt == i);
                }
                return Some(uid);
            }
            i += 1;
        }
        None
    }

    /// Resolve an external chat identity to the id of the entity holding it.
    #[verifier::loop_isolation(false)]
    pub fn get_by_channel_id(&self, chat_id: i64) -> (r: Option<u64>)
        requires
            self@.wf(),
        ensures
            r is Some <==> spec_has_chat(self@.entities, chat_id),
            r matches Some(uid) ==> spec_has_entity(self@.entities, uid) && spec_entity(
                self@.entities,
                uid,
            ).has_chat_id(chat_id),
    {
        let n = self.entities.len();
        let mut i: usize = 0;
        while i < n
            invariant
                self@.wf(),
                n == self@.entities.len(),
                i <= n,
                forall|k: int| 0 <= k < i ==> !(#[trigger] self@.entities[k]).has_chat_id(chat_id),
            decreases n - i,
        {
            let e = &self.entities[i];
            proof {
                assert(self@.entities[i as int] == self.entities@[i as int]@);
            }
            let m = e.channels.len();
            let mut j: usize = 0;
            while j < m
                invariant
                    m == e.channels@.len(),
                    j <= m,
                    e@ == self@.entities[i as int],
                    self@.wf(),
                    0 <= i < self@.entities.len(),
                    forall|k: int|
                        0 <= k < j ==> (#[trigger] e@.channels[k]).kind != (
                        crate::entity::ChannelKindView::Chat { chat_id }),
                decreases m - j,
            {
                proof {
                    assert(e@.channels[j as int] == e.channels@[j as int]@);
                }
                let hit = match &e.channels[j].kind {
                    crate::entity::ChannelKind::Chat { chat_id: c } => *c == chat_id,
                    _ => false,
                };
                if hit {
                    let uid = e.id;
                    proof {
                        assert(e@.channels[j as int].kind == (crate::entity::ChannelKindView::Chat {
                            chat_id,
                        }));
                        assert(e@.has_chat_id(chat_id));
                        assert(spec_has_chat(self@.entities, chat_id));
                        assert(spec_has_entity(self@.entities, uid));
                        let k = spec_chat_index(self@.entities, chat_id);
                        assert(0 <= k < self@.entities.len() && self@.entities[k].has_chat_id(
                            chat_id,
                        ));
                        assert(k == i);
                        let t = spec_entity_index(self@.entities, uid);
                        assert(0 <= t < self@.entities.len() && self@.entities[t].id == uid);
                        assert(t == i);
                    }
                    return Some(uid);
                }
                j += 1;
            }
            proof {
                assert(!self@.entities[i as int].has_chat_id(chat_id));
            }
            i += 1;
        }
        None
    }

    /// Resolve an invite token to the invite it names.
    #[verifier::loop_isolation(false)]
    pub fn get_invite(&self, token: &str) -> (r: Option<&Invite>)
        requires
            self@.wf(),
        ensures
            r is Some <==> spec_has_invite(self@.invites, token@),
            r matches Some(v) ==> v@ == self@.invites[spec_invite_index(self@.invites, token@)]
                && v@.token == token@,
    {
        let n = self.invites.len();
        let mut i: usize = 0;
        while i < n
            invariant
                self@.wf(),
                n == self@.invites.len(),
                i <= n,
                forall|k: int| 0 <= k < i ==> (#[trigger] self@.invites[k]).token != token@,
            decreases n - i,
        {
            proof {
                assert(self@.invites[i as int] == self.invites@[i as int]@);
            }
            if str_eq(self.invites[i].token.as_str(), token) {
                proof {
                    assert(self@.invites[i as int].token == token@);
                    assert(spec_has_invite(self@.invites, token@));
                    let j = spec_invite_index(self@.invites, token@);
                    assert(0 <= j < self@.invites.len() && self@.invites[j].token == token@);
                    assert(j == i);
                }
                return Some(&self.invites[i]);
            }
            i += 1;
        }
        None
    }
}

impl Store {
    /// Apply a heartbeat (`touch`) to the entity with this id.
    ///
    /// On success the possible recovery event comes back: a snapshot of the
    /// updated entity together with the seconds it had spent down.  An id
    /// absent from the store is reported, never fatal.
    #[verifier::loop_isolation(false)]
    pub fn touch_entity(&mut self, id: u64, now: u64) -> (r: Result<
        Option<(Entity, u64)>,
        StoreError,
    >)
        requires
            old(self)@.wf(),
            old(self)@.stamps_le(now),
        ensures
            final(self)@.invites == old(self)@.invites,
            r is Err <==> !spec_has_entity(old(self)@.entities, id),
            r is Err ==> r == Result::<Option<(Entity, u64)>, StoreError>::Err(
                StoreError::EntityNotFound,
            ) && final(self)@ == old(self)@,
            r matches Ok(opt) ==> ({
                let i = spec_entity_index(old(self)@.entities, id);
                let e0 = old(self)@.entities[i];
                let hb1 = e0.heartbeat.spec_touch(now).0;
                &&& final(self)@.entities == old(self)@.entities.update(
                    i,
                    (EntityView { heartbeat: hb1, ..e0 }),
                )
                &&& (opt is Some <==> e0.heartbeat.status is Down)
                &&& (opt matches Some(p) ==> p.0@ == (EntityView { heartbeat: hb1, ..e0 }) && p.1
                    == now - e0.heartbeat.state_changed_at)
            }),
            final(self)@.wf(),
            final(self)@.stamps_le(now),
    {
        let ghost s0 = self@.entities;
        let n = self.entities.len();
        let mut i: usize = 0;
        while i < n
            invariant
                i <= n,
                self@ == old(self)@,
                n == self@.entities.len(),
                forall|k: int| 0 <= k < i ==> (#[trigger] s0[k]).id != id,
            decreases n - i,
        {
            proof {
                assert(s0[i as int] == self.entities@[i as int]@);
            }
            if self.entities[i].id == id {
                proof {
                    assert(entities_wf(s0));
                    assert(s0[i as int].id == id);
                    assert(spec_has_entity(s0, id));
                    let j = spec_entity_index(s0, id);
                    assert(0 <= j < s0.len() && s0[j].id == id);
                    assert(j == i);
                }
                let ghost e0 = s0[i as int];
                let mut ent = self.entities.remove(i);
                let touched = ent.heartbeat.touch(now);
                let result = match touched {
                    Some(d) => {
                        let snap = ent.clone();
                        self.entities.insert(i, ent);
                        Some((snap, d))
                    },
                    None => {
                        self.entities.insert(i, ent);
                        None
                    },
                };
                proof {
                    let e1 = (EntityView { heartbeat: e0.heartbeat.spec_touch(now).0, ..e0 });
                    assert(e0.wf());
                    assert(e1.wf());
                    assert(self@.entities =~= s0.update(i as int, e1));
                    lemma_wf_after_same_keys_update(s0, i as int, e1);
                    assert forall|k: int| 0 <= k < self@.entities.len() implies (
                    #[trigger] self@.entities[k]).heartbeat.stamps_le(now) by {
                        if k != i {
                            assert(self@.entities[k] == s0[k]);
                        }
                    }
                }
                return Ok(result);
            }
            i += 1;
        }
        Err(StoreError::EntityNotFound)
    }

    /// One write phase of the scheduler: expire every overdue entity and
    /// collect, for each one that actually transitioned, a snapshot of the
    /// updated entity and the seconds it had been reachable.
    ///
    /// No entity that is overdue at `now` is skipped, and nothing else is
    /// changed; `expire` itself keeps an already-down entity silent.
    #[verifier::loop_isolation(false)]
    pub fn expire_overdue(&mut self, now: u64) -> (events: Vec<(Entity, u64)>)
        requires
            old(self)@.wf(),
            old(self)@.stamps_le(now),
        ensures
            final(self)@.invites == old(self)@.invites,
            final(self)@.entities == spec_expire_all(old(self)@.entities, now),
            events@.map_values(|p: (Entity, u64)| (p.0@, p.1)) == spec_cycle_events(
                old(self)@.entities,
                now,
            ),
            forall|i: int|
                0 <= i < old(self)@.entities.len() && (#[trigger] old(self)@.entities[i]).is_overdue(
                    now,
                ) ==> final(self)@.entities[i].heartbeat.status is Down
                    && final(self)@.entities[i].heartbeat.state_changed_at == now,
            forall|i: int|
                0 <= i < old(self)@.entities.len() && !(
                #[trigger] old(self)@.entities[i]).is_overdue(now) ==> final(self)@.entities[i]
                    == old(self)@.entities[i],
            final(self)@.wf(),
            final(self)@.stamps_le(now),
    {
        let ghost s0 = self@.entities;
        let n = self.entities.len();
        let mut events: Vec<(Entity, u64)> = Vec::new();
        let mut i: usize = 0;
        proof {
            assert(events@.map_values(|p: (Entity, u64)| (p.0@, p.1)) =~= spec_cycle_events(
                s0.take(0),
                now,
            ));
        }
        while i < n
            invariant
                i <= n,
                self@.entities.len() == n,
                self@.invites == old(self)@.invites,
                forall|k: int|
                    0 <= k < i ==> self@.entities[k] == (if (#[trigger] s0[k]).is_overdue(now) {
                        spec_expired(s0[k], now)
                    } else {
                        s0[k]
                    }),
                forall|k: int| i <= k < n ==> self@.entities[k] == s0[k],
                events@.map_values(|p: (Entity, u64)| (p.0@, p.1)) == spec_cycle_events(
                    s0.take(i as int),
                    now,
                ),
            decreases n - i,
        {
            proof {
                assert(self@.entities[i as int] == self.entities@[i as int]@);
                assert(s0.take(i + 1).drop_last() =~= s0.take(i as int));
                assert(s0.take(i + 1).last() == s0[i as int]);
            }
            let st = self.entities[i].heartbeat.status;
            let monitored = match st {
                crate::heartbeat::UpStatus::Up => true,
                crate::heartbeat::UpStatus::Uninitialized => true,
                _ => false,
            };
            let ta = self.entities[i].heartbeat.touched_at;
            let ud = self.entities[i].up_delay;
            if monitored && now - ta >= ud {
                let ghost e0 = s0[i as int];
                let ghost prev = self@.entities;
                proof {
                    assert(e0.is_overdue(now));
                    assert(prev[i as int] == e0);
                }
                let mut ent = self.entities.remove(i);
                proof {
                    assert(ent@ == e0);
                }
                let expired = ent.heartbeat.expire(now);
                let dur = expired.unwrap();
                let snap = ent.clone();
                self.entities.insert(i, ent);
                events.push((snap, dur));
                proof {
                    assert(self@.entities =~= prev.update(i as int, spec_expired(e0, now)));
                    assert(snap@ == spec_expired(e0, now));
                    assert(dur == (now - e0.heartbeat.state_changed_at) as u64);
                    assert(events@.map_values(|p: (Entity, u64)| (p.0@, p.1)) =~= spec_cycle_events(
                        s0.take(i + 1),
                        now,
                    ));
                }
            } else {
                proof {
                    assert(!s0[i as int].is_overdue(now));
                    assert(events@.map_values(|p: (Entity, u64)| (p.0@, p.1)) =~= spec_cycle_events(
                        s0.take(i + 1),
                        now,
                    ));
                }
            }
            i += 1;
        }
        proof {
            assert(s0.take(n as int) =~= s0);
            assert(self@.entities =~= spec_expire_all(s0, now));
            lemma_wf_expire_all(s0, now);
            assert forall|k: int| 0 <= k < self@.entities.len() implies (
            #[trigger] self@.entities[k]).heartbeat.stamps_le(now) by {
                assert(self@.entities[k] == spec_expire_all(s0, now)[k]);
            }
        }
        events
    }

    /// Whether an owner may create one more invite: it must exist and must
    /// not have spent its whole invite budget.
    pub fn can_create_invite(&self, owner_id: u64) -> (r: Result<(), InviteError>)
        requires
            self@.wf(),
        ensures
            r is Ok <==> spec_has_entity(self@.entities, owner_id) && spec_entity(
                self@.entities,
                owner_id,
            ).invites_used < spec_entity(self@.entities, owner_id).invites_limit,
            r == Result::<(), InviteError>::Err(InviteError::OwnerNotFound) <==> !spec_has_entity(
                self@.entities,
                owner_id,
            ),
            r == Result::<(), InviteError>::Err(InviteError::InvitesExhausted) <==> spec_has_entity(
                self@.entities,
                owner_id,
            ) && spec_entity(self@.entities, owner_id).invites_used >= spec_entity(
                self@.entities,
                owner_id,
            ).invites_limit,
    {
        match self.get(owner_id) {
            None => Err(InviteError::OwnerNotFound),
            Some(e) => {
                if e.invites_used < e.invites_limit {
                    Ok(())
                } else {
                    Err(InviteError::InvitesExhausted)
                }
            },
        }
    }

    /// Record a freshly persisted invite: append it to the registry and
    /// charge it against its owner's invite budget.
    ///
    /// The token is freshly generated, so it collides with no stored invite.
    #[verifier::loop_isolation(false)]
    pub fn add_invite(&mut self, inv: Invite) -> (r: Result<(), InviteError>)
        requires
            old(self)@.wf(),
            !spec_has_invite(old(self)@.invites, inv@.token),
        ensures
            r is Ok <==> spec_has_entity(old(self)@.entities, inv@.owner_id) && spec_entity(
                old(self)@.entities,
                inv@.owner_id,
            ).invites_used < spec_entity(old(self)@.entities, inv@.owner_id).invites_limit,
            r == Result::<(), InviteError>::Err(InviteError::OwnerNotFound) <==> !spec_has_entity(
                old(self)@.entities,
                inv@.owner_id,
            ),
            r is Err ==> final(self)@ == old(self)@,
            r is Ok ==> ({
                let i = spec_entity_index(old(self)@.entities, inv@.owner_id);
                let e0 = old(self)@.entities[i];
                &&& final(self)@.entities == old(self)@.entities.update(
                    i,
                    (EntityView { invites_used: (e0.invites_used + 1) as u64, ..e0 }),
                )
                &&& final(self)@.invites == old(self)@.invites.push(inv@)
            }),
            final(self)@.wf(),
    {
        let ghost s0 = self@.entities;
        let n = self.entities.len();
        let mut i: usize = 0;
        while i < n
            invariant
                i <= n,
                self@ == old(self)@,
                n == self@.entities.len(),
                forall|k: int| 0 <= k < i ==> (#[trigger] s0[k]).id != inv@.owner_id,
            decreases n - i,
        {
            proof {
                assert(s0[i as int] == self.entities@[i as int]@);
            }
            if self.entities[i].id == inv.owner_id {
                proof {
                    assert(entities_wf(s0));
                    assert(s0[i as int].id == inv@.owner_id);
                    assert(spec_has_entity(s0, inv@.owner_id));
                    let j = spec_entity_index(s0, inv@.owner_id);
                    assert(0 <= j < s0.len() && s0[j].id == inv@.owner_id);
                    assert(j == i);
                }
                if self.entities[i].invites_used >= self.entities[i].invites_limit {
                    return Err(InviteError::InvitesExhausted);
                }
                let ghost e0 = s0[i as int];
                let mut ent = self.entities.remove(i);
                ent.invites_used = ent.invites_used + 1;
                self.entities.insert(i, ent);
                self.invites.push(inv);
                proof {
                    let e1 = (EntityView { invites_used: (e0.invites_used + 1) as u64, ..e0 });
                    assert(e0.wf());
                    assert(e1.wf());
                    assert(self@.entities =~= s0.update(i as int, e1));
                    lemma_wf_after_same_keys_update(s0, i as int, e1);
                    assert(self@.invites =~= old(self)@.invites.push(inv@));
                    assert forall|a: int, b: int|
                        0 <= a < self@.invites.len() && 0 <= b < self@.invites.len() && a
                            != b implies #[trigger] self@.invites[a].token
                        != #[trigger] self@.invites[b].token by {
                        let m = old(self)@.invites.len() as int;
                        if a < m && b < m {
                            assert(self@.invites[a] == old(self)@.invites[a]);
                            assert(self@.invites[b] == old(self)@.invites[b]);
                        } else if a == m {
                            assert(self@.invites[b] == old(self)@.invites[b]);
                            assert(!spec_has_invite(old(self)@.invites, inv@.token));
                        } else {
                            assert(self@.invites[a] == old(self)@.invites[a]);
                            assert(!spec_has_invite(old(self)@.invites, inv@.token));
                        }
                    }
                }
                return Ok(());
            }
            i += 1;
        }
        Err(InviteError::OwnerNotFound)
    }
}

/// The view of an entity after the scheduler expires it at `now`.
pub open spec fn spec_expired(e: EntityView, now: u64) -> EntityView {
    EntityView { heartbeat: e.heartbeat.spec_expire(now).0, ..e }
}

/// The registry after one scheduler write phase: every overdue entity is
/// expired in place, everything else is untouched.
pub open spec fn spec_expire_all(s: Seq<EntityView>, now: u64) -> Seq<EntityView> {
    Seq::new(
        s.len(),
        |i: int|
            if s[i].is_overdue(now) {
                spec_expired(s[i], now)
            } else {
                s[i]
            },
    )
}

/// The dispatch events one scheduler write phase produces, in registry
/// order: for each overdue entity, its expired snapshot and the seconds it
/// had spent reachable.
pub open spec fn spec_cycle_events(s: Seq<EntityView>, now: u64) -> Seq<(EntityView, u64)>
    decreases s.len(),
{
    if s.len() == 0 {
        Seq::empty()
    } else {
        let rest = spec_cycle_events(s.drop_last(), now);
        let e = s.last();
        if e.is_overdue(now) {
            rest.push(
                (spec_expired(e, now), (now - e.heartbeat.state_changed_at) as u64),
            )
        } else {
            rest
        }
    }
}

/// Replacing an entity with one that keeps its id, bearer token, channels
/// and internal consistency keeps the registry invariant.
proof fn lemma_wf_after_same_keys_update(s: Seq<EntityView>, i: int, e: EntityView)
    requires
        entities_wf(s),
        0 <= i < s.len(),
        e.id == s[i].id,
        e.access_token == s[i].access_token,
        e.channels == s[i].channels,
        e.wf(),
    ensures
        entities_wf(s.update(i, e)),
{
    let t = s.update(i, e);
    assert forall|cid: i64| #[trigger] e.has_chat_id(cid) implies s[i].has_chat_id(cid) by {}
    assert forall|cid: i64| #[trigger] s[i].has_chat_id(cid) implies e.has_chat_id(cid) by {}
    assert forall|a: int, b: int|
        0 <= a < t.len() && 0 <= b < t.len() && a != b implies #[trigger] t[a].id
        != #[trigger] t[b].id by {
        if a != i && b != i {
            assert(t[a] == s[a] && t[b] == s[b]);
        }
    }
    assert forall|a: int, b: int|
        0 <= a < t.len() && 0 <= b < t.len() && a != b implies #[trigger] t[a].access_token
        != #[trigger] t[b].access_token by {
        if a != i && b != i {
            assert(t[a] == s[a] && t[b] == s[b]);
        }
    }
    assert forall|a: int, b: int, cid: i64|
        0 <= a < t.len() && 0 <= b < t.len() && a != b implies !(#[trigger] t[a].has_chat_id(cid)
        && #[trigger] t[b].has_chat_id(cid)) by {
        if a != i && b != i {
            assert(t[a] == s[a] && t[b] == s[b]);
        } else if a == i {
            assert(t[b] == s[b]);
            if t[a].has_chat_id(cid) {
                assert(s[i].has_chat_id(cid));
            }
        } else {
            assert(t[a] == s[a]);
            if t[b].has_chat_id(cid) {
                assert(s[i].has_chat_id(cid));
            }
        }
    }
    assert forall|a: int| 0 <= a < t.len() implies #[trigger] t[a].wf() by {
        if a != i {
            assert(t[a] == s[a]);
        }
    }
}

/// Expiring every overdue entity keeps the registry invariant: the expire
/// transition never changes an entity's id, token or channels.
proof fn lemma_wf_expire_all(s: Seq<EntityView>, now: u64)
    requires
        entities_wf(s),
    ensures
        entities_wf(spec_expire_all(s, now)),
{
    let t = spec_expire_all(s, now);
    assert forall|a: int, b: int|
        0 <= a < t.len() && 0 <= b < t.len() && a != b implies #[trigger] t[a].id
        != #[trigger] t[b].id by {
        assert(t[a].id == s[a].id && t[b].id == s[b].id);
        assert(s[a].id != s[b].id);
    }
    assert forall|a: int, b: int|
        0 <= a < t.len() && 0 <= b < t.len() && a != b implies #[trigger] t[a].access_token
        != #[trigger] t[b].access_token by {
        assert(t[a].access_token == s[a].access_token && t[b].access_token == s[b].access_token);
        assert(s[a].access_token != s[b].access_token);
    }
    assert forall|a: int, b: int, cid: i64|
        0 <= a < t.len() && 0 <= b < t.len() && a != b implies !(#[trigger] t[a].has_chat_id(cid)
        && #[trigger] t[b].has_chat_id(cid)) by {
        assert(t[a].channels == s[a].channels && t[b].channels == s[b].channels);
        if t[a].has_chat_id(cid) && t[b].has_chat_id(cid) {
            assert(s[a].has_chat_id(cid) && s[b].has_chat_id(cid));
            assert(false);
        }
    }
    assert forall|a: int| 0 <= a < t.len() implies #[trigger] t[a].wf() by {
        assert(s[a].wf());
    }
}


/// Replacing the entity that already carries `e.id` keeps the registry
/// invariant, provided `e` collides with nobody else.
proof fn lemma_wf_after_replace(s: Seq<EntityView>, i: int, e: EntityView)
    requires
        entities_wf(s),
        0 <= i < s.len(),
        s[i].id == e.id,
        e.wf(),
        forall|k: int|
            0 <= k < s.len() && (#[trigger] s[k]).id != e.id ==> s[k].access_token
                != e.access_token,
        forall|k: int, cid: i64|
            0 <= k < s.len() && s[k].id != e.id ==> !(#[trigger] s[k].has_chat_id(cid)
                && e.has_chat_id(cid)),
    ensures
        entities_wf(s.update(i, e)),
{
    let t = s.update(i, e);
    assert forall|a: int, b: int|
        0 <= a < t.len() && 0 <= b < t.len() && a != b implies #[trigger] t[a].id
        != #[trigger] t[b].id by {
        if a != i && b != i {
            assert(t[a] == s[a] && t[b] == s[b]);
        }
    }
    assert forall|a: int, b: int|
        0 <= a < t.len() && 0 <= b < t.len() && a != b implies #[trigger] t[a].access_token
        != #[trigger] t[b].access_token by {
        if a == i {
            assert(s[b].id != e.id);
        } else if b == i {
            assert(s[a].id != e.id);
        }
    }
    assert forall|a: int, b: int, cid: i64|
        0 <= a < t.len() && 0 <= b < t.len() && a != b implies !(#[trigger] t[a].has_chat_id(cid)
        && #[trigger] t[b].has_chat_id(cid)) by {
        if a == i {
            assert(s[b].id != e.id);
        } else if b == i {
            assert(s[a].id != e.id);
        }
    }
    assert forall|a: int| 0 <= a < t.len() implies #[trigger] t[a].wf() by {
        if a != i {
            assert(t[a] == s[a]);
        }
    }
}

/// Appending an entity with a fresh id keeps the registry invariant,
/// provided `e` collides with nobody.
proof fn lemma_wf_after_push(s: Seq<EntityView>, e: EntityView)
    requires
        entities_wf(s),
        !spec_has_entity(s, e.id),
        e.wf(),
        forall|k: int|
            0 <= k < s.len() && (#[trigger] s[k]).id != e.id ==> s[k].access_token
                != e.access_token,
        forall|k: int, cid: i64|
            0 <= k < s.len() && s[k].id != e.id ==> !(#[trigger] s[k].has_chat_id(cid)
                && e.has_chat_id(cid)),
    ensures
        entities_wf(s.push(e)),
{
    let t = s.push(e);
    let n = s.len() as int;
    assert forall|k: int| 0 <= k < s.len() implies (#[trigger] s[k]).id != e.id by {}
    assert forall|a: int, b: int|
        0 <= a < t.len() && 0 <= b < t.len() && a != b implies #[trigger] t[a].id
        != #[trigger] t[b].id by {
        if a < n && b < n {
            assert(t[a] == s[a] && t[b] == s[b]);
        } else if a == n {
            assert(t[b] == s[b] && s[b].id != e.id);
        } else if b == n {
            assert(t[a] == s[a] && s[a].id != e.id);
        }
    }
    assert forall|a: int, b: int|
        0 <= a < t.len() && 0 <= b < t.len() && a != b implies #[trigger] t[a].access_token
        != #[trigger] t[b].access_token by {
        if a < n && b < n {
            assert(t[a] == s[a] && t[b] == s[b]);
        } else if a == n {
            assert(s[b].id != e.id);
        } else if b == n {
            assert(s[a].id != e.id);
        }
    }
    assert forall|a: int, b: int, cid: i64|
        0 <= a < t.len() && 0 <= b < t.len() && a != b implies !(#[trigger] t[a].has_chat_id(cid)
        && #[trigger] t[b].has_chat_id(cid)) by {
        if a < n && b < n {
            assert(t[a] == s[a] && t[b] == s[b]);
        } else if a == n {
            assert(s[b].id != e.id);
        } else if b == n {
            assert(s[a].id != e.id);
        }
    }
    assert forall|a: int| 0 <= a < t.len() implies #[trigger] t[a].wf() by {
        if a < n {
            assert(t[a] == s[a]);
        }
    }
}

} // verus!
