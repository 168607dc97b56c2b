//! Bearer-token authentication and per-principal rate limiting for the
//! heartbeat endpoint.
//!
//! Token validity is checked before the quota: an invalid token is always
//! rejected as invalid and never masked as rate-limited, and a rejected
//! request never spends any principal's permit.

use vstd::prelude::*;
use crate::limiter::{spec_bucket_check, RateLimiter};
use crate::store::{spec_has_token, spec_token_owner, Store};
use crate::text::{spec_strip_token_prefix, strip_token_prefix};

verus! {

/// An authenticated principal: the id the presented bearer token resolved
/// to.
#[derive(Clone, Copy, Debug, PartialEq, Eq, Structural)]
pub struct BAuth {
    pub uid: u64,
}

/// Why a heartbeat request is turned away, each surfaced to the caller with
/// its own status.
#[derive(Clone, Copy, Debug, PartialEq, Eq, Structural)]
pub enum BAuthError {
    /// No bearer token was presented.
    Missing,
    /// The presented token resolves to no entity.
    Invalid,
    /// The principal spent its whole request quota.
    RateLimited,
}

/// Authenticate one heartbeat request: resolve the authorization header
/// (with its optional `token ` marker) through the store's token index,
/// then charge the resolved principal's quota at millisecond instant
/// `now_ms`.
///
/// A missing header, an unknown token and an exhausted quota each yield
/// their own error; only a request that reaches the quota check spends a
/// permit, so invalid requests cannot starve anyone.
pub fn authenticate(
    store: &Store,
    limiter: &mut RateLimiter,
    header: Option<&str>,
    now_ms: u64,
) -> (r: Result<BAuth, BAuthError>)
    requires
        store@.wf(),
        old(limiter)@.wf(),
        old(limiter)@.stamps_le(now_ms),
    ensures
        final(limiter)@.wf(),
        final(limiter)@.stamps_le(now_ms),
        final(limiter)@.capacity == old(limiter)@.capacity,
        final(limiter)@.period_ms == old(limiter)@.period_ms,
        header is None <==> r == Result::<BAuth, BAuthError>::Err(BAuthError::Missing),
        header matches Some(h) ==> ({
            let token = spec_strip_token_prefix(h@);
            &&& (!spec_has_token(store@.entities, token) <==> r == Result::<
                BAuth,
                BAuthError,
            >::Err(BAuthError::Invalid))
            &&& spec_has_token(store@.entities, token) ==> ({
                let uid = spec_token_owner(store@.entities, token);
                let check = spec_bucket_check(
                    old(limiter)@.bucket_at(uid, now_ms),
                    old(limiter)@.capacity,
                    old(limiter)@.period_ms,
                    now_ms,
                );
                &&& (check.1 <==> r == Result::<BAuth, BAuthError>::Ok(BAuth { uid }))
                &&& (!check.1 <==> r == Result::<BAuth, BAuthError>::Err(BAuthError::RateLimited))
                &&& final(limiter)@.bucket_for(uid) == Some(check.0)
                &&& forall|k2: u64|
                    k2 != uid ==> #[trigger] final(limiter)@.bucket_for(k2) == old(
                        limiter,
                    )@.bucket_for(k2)
            })
        }),
        (header is None || (header matches Some(h) && !spec_has_token(
            store@.entities,
            spec_strip_token_prefix(h@),
        ))) ==> final(limiter)@ == old(limiter)@,
{
    match header {
        None => Err(BAuthError::Missing),
        Some(raw) => {
            let token = strip_token_prefix(raw);
            match store.get_by_token(token) {
                None => Err(BAuthError::Invalid),
                Some(uid) => {
                    if limiter.check_key(uid, now_ms) {
                        Ok(BAuth { uid })
                    } else {
                        Err(BAuthError::RateLimited)
                    }
                },
            }
        },
    }
}

} // verus!
