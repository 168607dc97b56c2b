//! Creation flows: registering a new entity and minting an invite.
//!
//! These are the decision cores of the administrative operations.  The
//! caller performs everything that leaves the process — generating random
//! identifiers and secrets, provisioning the push-notification account, and
//! persisting the new record, which must complete before the record is
//! registered here — and hands the resulting plain values in.

use vstd::prelude::*;
use crate::entity::{
    build_entity, spec_built_entity, spec_valid_new_user, spec_up_delay, spec_down_delay, Invite,
    NewInvite, NewUser, ValidationError,
};
use crate::entity::ChannelKindView;
use crate::store::{
    spec_entity, spec_entity_index, spec_has_entity, spec_has_invite, InviteError, Store,
};

verus! {

/// The invite a creation request presents, if any, names a stored invite.
pub open spec fn spec_invite_resolvable(
    opts: NewUser,
    invites: Seq<crate::entity::InviteView>,
) -> bool {
    match opts.invite {
        Some(tok) => spec_has_invite(invites, tok@),
        None => true,
    }
}

/// Why a creation request is turned away.
#[derive(Clone, Copy, Debug, PartialEq, Eq, Structural)]
pub enum CreateUserError {
    /// The presented invite token names no invite.
    InviteNotFound,
    /// A field of the request itself is unacceptable.
    InvalidRequest(ValidationError),
}

/// Register a new entity from a creation request: resolve the presented
/// invite token if there is one, validate the request, assemble the entity
/// and add it to the registry.  `id`, `access_token` and `push_topic` are
/// the freshly minted identity and secrets; `now` is creation time.
///
/// Returns whether an entity with this id already existed (a reported
/// anomaly, overwritten last-write-wins), or the precise reason the request
/// is rejected, in which case the registry is untouched.
pub fn create_user(
    store: &mut Store,
    opts: &NewUser,
    id: u64,
    access_token: String,
    push_topic: String,
    now: u64,
) -> (r: Result<bool, CreateUserError>)
    requires
        old(store)@.wf(),
        forall|i: int|
            0 <= i < old(store)@.entities.len() && (#[trigger] old(store)@.entities[i]).id != id
                ==> old(store)@.entities[i].access_token != access_token@,
        forall|i: int|
            0 <= i < old(store)@.entities.len() && (#[trigger] old(store)@.entities[i]).id != id
                ==> !old(store)@.entities[i].has_chat_id(opts.tg_user_id),
    ensures
        final(store)@.wf(),
        final(store)@.invites == old(store)@.invites,
        !spec_invite_resolvable(*opts, old(store)@.invites) <==> r == Result::<
            bool,
            CreateUserError,
        >::Err(CreateUserError::InviteNotFound),
        r is Err ==> final(store)@ == old(store)@,
        r == Result::<bool, CreateUserError>::Err(
            CreateUserError::InvalidRequest(ValidationError::NegativeInvitesLimit),
        ) <==> spec_invite_resolvable(*opts, old(store)@.invites) && opts.invites_limit < 0,
        r == Result::<bool, CreateUserError>::Err(
            CreateUserError::InvalidRequest(ValidationError::ZeroUpDelay),
        ) <==> spec_invite_resolvable(*opts, old(store)@.invites) && opts.invites_limit >= 0
            && spec_up_delay(*opts) == 0,
        r == Result::<bool, CreateUserError>::Err(
            CreateUserError::InvalidRequest(ValidationError::ZeroDownDelay),
        ) <==> spec_invite_resolvable(*opts, old(store)@.invites) && opts.invites_limit >= 0
            && spec_up_delay(*opts) > 0 && spec_down_delay(*opts) == 0,
        r is Ok <==> spec_valid_new_user(*opts) && spec_invite_resolvable(
            *opts,
            old(store)@.invites,
        ),
        r matches Ok(dup) ==> ({
            let e = spec_built_entity(*opts, id, access_token@, push_topic@, now);
            &&& dup == spec_has_entity(old(store)@.entities, id)
            &&& dup ==> final(store)@.entities == old(store)@.entities.update(
                spec_entity_index(old(store)@.entities, id),
                e,
            )
            &&& !dup ==> final(store)@.entities == old(store)@.entities.push(e)
        }),
{
    match &opts.invite {
        Some(tok) => {
            if store.get_invite(tok.as_str()).is_none() {
                return Err(CreateUserError::InviteNotFound);
            }
        },
        None => {},
    }
    let entity = match build_entity(opts, id, access_token, push_topic, now) {
        Ok(e) => e,
        Err(v) => {
            return Err(CreateUserError::InvalidRequest(v));
        },
    };
    proof {
        assert forall|cid: i64| #[trigger] entity@.has_chat_id(cid) implies cid
            == opts.tg_user_id by {
            let j = choose|j: int|
                0 <= j < entity@.channels.len() && entity@.channels[j].kind == (
                ChannelKindView::Chat { chat_id: cid });
            assert(j == 0 || j == 1);
        }
    }
    let dup = store.insert(entity);
    Ok(dup)
}

/// Mint an invite on behalf of an owner: check that the owner exists and
/// still has invite budget, then record the invite and charge the budget.
/// `invite_id` and `token` are freshly generated, so the token collides
/// with no stored invite.
///
/// Returns the recorded invite, or says whether the owner is missing or
/// exhausted, in which case the registry is untouched.
pub fn create_invite(store: &mut Store, opts: &NewInvite, invite_id: u64, token: String) -> (r:
    Result<Invite, InviteError>)
    requires
        old(store)@.wf(),
        !spec_has_invite(old(store)@.invites, token@),
    ensures
        final(store)@.wf(),
        r is Ok <==> spec_has_entity(old(store)@.entities, opts.owner_id) && spec_entity(
            old(store)@.entities,
            opts.owner_id,
        ).invites_used < spec_entity(old(store)@.entities, opts.owner_id).invites_limit,
        r == Result::<Invite, InviteError>::Err(InviteError::OwnerNotFound) <==> !spec_has_entity(
            old(store)@.entities,
            opts.owner_id,
        ),
        r is Err ==> final(store)@ == old(store)@,
        r matches Ok(inv) ==> ({
            let i = spec_entity_index(old(store)@.entities, opts.owner_id);
            let e0 = old(store)@.entities[i];
            &&& inv@.id == invite_id
            &&& inv@.token == token@
            &&& inv@.owner_id == opts.owner_id
            &&& !inv@.is_used
            &&& final(store)@.invites == old(store)@.invites.push(inv@)
            &&& final(store)@.entities == old(store)@.entities.update(
                i,
                (crate::entity::EntityView { invites_used: (e0.invites_used + 1) as u64, ..e0 }),
            )
        }),
{
    let invite = Invite { id: invite_id, token, owner_id: opts.owner_id, is_used: false };
    let result = invite.clone();
    match store.add_invite(invite) {
        Ok(()) => Ok(result),
        Err(e) => Err(e),
    }
}

} // verus!
