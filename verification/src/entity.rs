//! Monitored entities, their notification channels, and invites.
//!
//! An entity is one monitored principal: its identity, bearer credential,
//! heartbeat timeouts, notification channels and embedded heartbeat record.
//! Identifiers are plain integers; the process that mints them hands them in
//! from outside, together with generated secrets, so everything here is a
//! function of its arguments.  Each executable type has a mathematical view
//! (`@`) that the contracts throughout this crate speak of.

use vstd::prelude::*;
use crate::heartbeat::{Heartbeat, UpStatus};

verus! {

/// Heartbeat timeout applied when a creation request leaves it unset.
pub const DEFAULT_UP_DELAY_SECS: u64 = 60;

/// Recovery-confirmation delay applied when a creation request leaves it
/// unset.  Carried per entity; the scheduler does not currently read it.
pub const DEFAULT_DOWN_DELAY_SECS: u64 = 60;

/// Admin entities bypass invite-based creation.
#[derive(Clone, Copy, Debug, PartialEq, Eq, Structural)]
pub enum UserType {
    Standard,
    Admin,
}

/// Where one notification goes: a push-notification topic or a chat identity.
#[derive(Debug)]
pub enum ChannelKind {
    Push { topic: String },
    Chat { chat_id: i64 },
}

/// Mathematical view of a channel destination.
#[verifier::ext_equal]
pub enum ChannelKindView {
    Push { topic: Seq<char> },
    Chat { chat_id: i64 },
}

/// One notification channel descriptor with its independent enabled flag.
#[derive(Debug)]
pub struct Channel {
    pub enabled: bool,
    pub kind: ChannelKind,
}

/// Mathematical view of a channel descriptor.
#[verifier::ext_equal]
pub struct ChannelView {
    pub enabled: bool,
    pub kind: ChannelKindView,
}

/// One monitored principal.
#[derive(Debug)]
pub struct Entity {
    /// Globally unique, immutable; primary key of the store.
    pub id: u64,
    pub kind: UserType,
    pub invites_limit: u64,
    pub invites_used: u64,
    /// Opaque secret; the sole bearer credential, unique across entities.
    pub access_token: String,
    /// Heartbeat timeout, seconds; positive.
    pub up_delay: u64,
    /// Recovery-confirmation delay, seconds; positive.
    pub down_delay: u64,
    pub channels: Vec<Channel>,
    pub heartbeat: Heartbeat,
}

/// Mathematical view of an entity.
#[verifier::ext_equal]
pub struct EntityView {
    pub id: u64,
    pub kind: UserType,
    pub invites_limit: u64,
    pub invites_used: u64,
    pub access_token: Seq<char>,
    pub up_delay: u64,
    pub down_delay: u64,
    pub channels: Seq<ChannelView>,
    pub heartbeat: Heartbeat,
}

/// A lighter-weight record resolving an invite token to its owner.
#[derive(Debug)]
pub struct Invite {
    pub id: u64,
    pub token: String,
    pub owner_id: u64,
    pub is_used: bool,
}

/// Mathematical view of an invite.
#[verifier::ext_equal]
pub struct InviteView {
    pub id: u64,
    pub token: Seq<char>,
    pub owner_id: u64,
    pub is_used: bool,
}

impl View for ChannelKind {
    type V = ChannelKindView;

    open spec fn view(&self) -> ChannelKindView {
        match self {
            ChannelKind::Push { topic } => ChannelKindView::Push { topic: topic@ },
            ChannelKind::Chat { chat_id } => ChannelKindView::Chat { chat_id: *chat_id },
        }
    }
}

impl View for Channel {
    type V = ChannelView;

    open spec fn view(&self) -> ChannelView {
        ChannelView { enabled: self.enabled, kind: self.kind@ }
    }
}

impl View for Entity {
    type V = EntityView;

    open spec fn view(&self) -> EntityView {
        EntityView {
            id: self.id,
            kind: self.kind,
            invites_limit: self.invites_limit,
            invites_used: self.invites_used,
            access_token: self.access_token@,
            up_delay: self.up_delay,
            down_delay: self.down_delay,
            channels: self.channels@.map_values(|c: Channel| c@),
            heartbeat: self.heartbeat,
        }
    }
}

impl View for Invite {
    type V = InviteView;

    open spec fn view(&self) -> InviteView {
        InviteView {
            id: self.id,
            token: self.token@,
            owner_id: self.owner_id,
            is_used: self.is_used,
        }
    }
}

impl Clone for ChannelKind {
    fn clone(&self) -> (r: Self)
        ensures
            r@ == self@,
    {
        match self {
            ChannelKind::Push { topic } => ChannelKind::Push { topic: topic.clone() },
            ChannelKind::Chat { chat_id } => ChannelKind::Chat { chat_id: *chat_id },
        }
    }
}

impl Clone for Channel {
    fn clone(&self) -> (r: Self)
        ensures
            r@ == self@,
    {
        Channel { enabled: self.enabled, kind: self.kind.clone() }
    }
}

impl Clone for Entity {
    fn clone(&self) -> (r: Self)
        ensures
            r@ == self@,
    {
        let channels = self.channels.clone();
        proof {
            assert forall|i: int| 0 <= i < self.channels@.len() implies channels@[i]@
                == self.channels@[i]@ by {
                assert(cloned::<Channel>(self.channels@[i], channels@[i]));
            }
            assert(channels@.map_values(|c: Channel| c@) =~= self.channels@.map_values(
                |c: Channel| c@,
            ));
        }
        Entity {
            id: self.id,
            kind: self.kind,
            invites_limit: self.invites_limit,
            invites_used: self.invites_used,
            access_token: self.access_token.clone(),
            up_delay: self.up_delay,
            down_delay: self.down_delay,
            channels,
            heartbeat: self.heartbeat,
        }
    }
}

impl Clone for Invite {
    fn clone(&self) -> (r: Self)
        ensures
            r@ == self@,
    {
        Invite {
            id: self.id,
            token: self.token.clone(),
            owner_id: self.owner_id,
            is_used: self.is_used,
        }
    }
}

impl EntityView {
    /// Internal consistency: the invite budget is respected and both
    /// heartbeat delays are positive.
    pub open spec fn wf(self) -> bool {
        self.invites_used <= self.invites_limit && self.up_delay > 0 && self.down_delay > 0
    }

    /// Whether the scheduler watches this entity for a missed heartbeat.
    pub open spec fn monitored(self) -> bool {
        self.heartbeat.status is Up || self.heartbeat.status is Uninitialized
    }

    /// The instant after which a missed heartbeat is declared.
    pub open spec fn deadline(self) -> int {
        self.heartbeat.touched_at + self.up_delay
    }

    /// The deadline has passed while the entity is still watched.
    pub open spec fn is_overdue(self, now: u64) -> bool {
        self.monitored() && self.deadline() <= now
    }

    /// Some channel of this entity is the chat identity `cid`.
    pub open spec fn has_chat_id(self, cid: i64) -> bool {
        exists|j: int|
            0 <= j < self.channels.len() && self.channels[j].kind == (ChannelKindView::Chat {
                chat_id: cid,
            })
    }
}

/// A request to create an entity, as the transport hands it over.
#[derive(Debug)]
pub struct NewUser {
    /// Invite token the requester presents; admins may omit it.
    pub invite: Option<String>,
    pub user_type: UserType,
    pub invites_limit: i64,
    /// Heartbeat timeout in seconds; defaulted when absent.
    pub up_delay: Option<u16>,
    /// Recovery-confirmation delay in seconds; defaulted when absent.
    pub down_delay: Option<u16>,
    pub ntfy_enabled: bool,
    pub tg_enabled: bool,
    pub tg_user_id: i64,
    pub tg_language_code: String,
}

/// A request to create an invite on behalf of an owner.
#[derive(Debug)]
pub struct NewInvite {
    pub owner_id: u64,
}

/// A creation request that arrives together with the invite token it spends.
#[derive(Debug)]
pub struct NewUserViaInvite {
    pub user: NewUser,
    pub invite: String,
}

/// Why a creation request is rejected before anything is built.
#[derive(Clone, Copy, Debug, PartialEq, Eq, Structural)]
pub enum ValidationError {
    NegativeInvitesLimit,
    ZeroUpDelay,
    ZeroDownDelay,
}

/// The heartbeat timeout a request asks for, after defaulting; zero only
/// when the request is invalid.
pub open spec fn spec_up_delay(opts: NewUser) -> int {
    match opts.up_delay {
        None => DEFAULT_UP_DELAY_SECS as int,
        Some(v) => v as int,
    }
}

/// The recovery-confirmation delay a request asks for, after defaulting.
pub open spec fn spec_down_delay(opts: NewUser) -> int {
    match opts.down_delay {
        None => DEFAULT_DOWN_DELAY_SECS as int,
        Some(v) => v as int,
    }
}

/// A creation request is acceptable: the invite budget is non-negative and
/// neither delay is explicitly zero.
pub open spec fn spec_valid_new_user(opts: NewUser) -> bool {
    opts.invites_limit >= 0 && spec_up_delay(opts) > 0 && spec_down_delay(opts) > 0
}

/// The entity a valid creation request describes: the requested flags and
/// limits, the minted credentials, two channels (push topic and chat
/// identity) and a fresh `Uninitialized` heartbeat born at `now`.
pub open spec fn spec_built_entity(
    opts: NewUser,
    id: u64,
    access_token: Seq<char>,
    push_topic: Seq<char>,
    now: u64,
) -> EntityView {
    EntityView {
        id,
        kind: opts.user_type,
        invites_limit: opts.invites_limit as u64,
        invites_used: 0,
        access_token,
        up_delay: spec_up_delay(opts) as u64,
        down_delay: spec_down_delay(opts) as u64,
        channels: seq![
            ChannelView {
                enabled: opts.ntfy_enabled,
                kind: ChannelKindView::Push { topic: push_topic },
            },
            ChannelView {
                enabled: opts.tg_enabled,
                kind: ChannelKindView::Chat { chat_id: opts.tg_user_id },
            },
        ],
        heartbeat: Heartbeat {
            status: UpStatus::Uninitialized,
            touched_at: now,
            state_changed_at: now,
        },
    }
}

/// Assemble a fresh entity from a creation request and the identifiers and
/// secrets minted for it: `id` and `access_token` come from the caller's
/// generator, `push_topic` names the push channel, `now` is creation time.
///
/// Returns the entity exactly as described by the request, with a fresh
/// `Uninitialized` heartbeat, or says which field was rejected.
pub fn build_entity(
    opts: &NewUser,
    id: u64,
    access_token: String,
    push_topic: String,
    now: u64,
) -> (r: Result<Entity, ValidationError>)
    ensures
        r is Ok <==> spec_valid_new_user(*opts),
        opts.invites_limit < 0 <==> r == Result::<Entity, ValidationError>::Err(
            ValidationError::NegativeInvitesLimit,
        ),
        (opts.invites_limit >= 0 && spec_up_delay(*opts) == 0) <==> r
            == Result::<Entity, ValidationError>::Err(ValidationError::ZeroUpDelay),
        (opts.invites_limit >= 0 && spec_up_delay(*opts) > 0 && spec_down_delay(*opts) == 0) <==> r
            == Result::<Entity, ValidationError>::Err(ValidationError::ZeroDownDelay),
        r matches Ok(e) ==> e@ == spec_built_entity(*opts, id, access_token@, push_topic@, now)
            && e@.wf(),
{
    if opts.invites_limit < 0 {
        return Err(ValidationError::NegativeInvitesLimit);
    }
    let up_delay: u64 = match opts.up_delay {
        None => DEFAULT_UP_DELAY_SECS,
        Some(v) => v as u64,
    };
    if up_delay == 0 {
        return Err(ValidationError::ZeroUpDelay);
    }
    let down_delay: u64 = match opts.down_delay {
        None => DEFAULT_DOWN_DELAY_SECS,
        Some(v) => v as u64,
    };
    if down_delay == 0 {
        return Err(ValidationError::ZeroDownDelay);
    }
    let mut channels: Vec<Channel> = Vec::new();
    channels.push(Channel { enabled: opts.ntfy_enabled, kind: ChannelKind::Push { topic: push_topic } });
    channels.push(Channel { enabled: opts.tg_enabled, kind: ChannelKind::Chat { chat_id: opts.tg_user_id } });
    let e = Entity {
        id,
        kind: opts.user_type,
        invites_limit: opts.invites_limit as u64,
        invites_used: 0,
        access_token,
        up_delay,
        down_delay,
        channels,
        heartbeat: Heartbeat::new(now),
    };
    proof {
        assert(e@.channels =~= e.channels@.map_values(|c: Channel| c@));
        assert(e@ =~~= spec_built_entity(
            *opts,
            id,
            e.access_token@,
            e.channels@[0].kind->Push_topic@,
            now,
        ));
    }
    Ok(e)
}

} // verus!
