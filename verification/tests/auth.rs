use uptime_core::auth::{authenticate, BAuth, BAuthError};
use uptime_core::entity::{Channel, ChannelKind, Entity, UserType};
use uptime_core::heartbeat::Heartbeat;
use uptime_core::limiter::get_rate_limiter;
use uptime_core::store::Store;
use uptime_core::text::strip_token_prefix;

fn entity(id: u64, token: &str) -> Entity {
    Entity {
        id,
        kind: UserType::Standard,
        invites_limit: 0,
        invites_used: 0,
        access_token: token.to_string(),
        up_delay: 60,
        down_delay: 60,
        channels: vec![Channel {
            enabled: true,
            kind: ChannelKind::Chat { chat_id: id as i64 },
        }],
        heartbeat: Heartbeat::new(0),
    }
}

#[test]
fn missing_header_is_rejected_as_missing() {
    let store = Store::new();
    let mut lim = get_rate_limiter();
    assert_eq!(authenticate(&store, &mut lim, None, 0), Err(BAuthError::Missing));
}

#[test]
fn unknown_token_is_rejected_as_invalid() {
    let mut store = Store::new();
    store.insert(entity(1, "secret-a"));
    let mut lim = get_rate_limiter();
    assert_eq!(authenticate(&store, &mut lim, Some("nope"), 0), Err(BAuthError::Invalid));
}

#[test]
fn valid_token_resolves_the_principal() {
    let mut store = Store::new();
    store.insert(entity(1, "secret-a"));
    store.insert(entity(2, "secret-b"));
    let mut lim = get_rate_limiter();
    assert_eq!(authenticate(&store, &mut lim, Some("secret-b"), 0), Ok(BAuth { uid: 2 }));
}

#[test]
fn token_marker_prefix_is_stripped() {
    let mut store = Store::new();
    store.insert(entity(1, "secret-a"));
    let mut lim = get_rate_limiter();
    assert_eq!(authenticate(&store, &mut lim, Some("token secret-a"), 0), Ok(BAuth { uid: 1 }));
    assert_eq!(strip_token_prefix("token abc"), "abc");
    assert_eq!(strip_token_prefix("abc"), "abc");
    assert_eq!(strip_token_prefix("token"), "token");
}

#[test]
fn quota_exhaustion_is_rejected_as_rate_limited() {
    let mut store = Store::new();
    store.insert(entity(1, "secret-a"));
    let mut lim = get_rate_limiter();
    assert!(authenticate(&store, &mut lim, Some("secret-a"), 0).is_ok());
    assert!(authenticate(&store, &mut lim, Some("secret-a"), 100).is_ok());
    assert_eq!(
        authenticate(&store, &mut lim, Some("secret-a"), 200),
        Err(BAuthError::RateLimited)
    );
}

#[test]
fn invalid_token_is_never_masked_as_rate_limited() {
    let mut store = Store::new();
    store.insert(entity(1, "secret-a"));
    let mut lim = get_rate_limiter();
    // exhaust the valid principal's quota
    assert!(authenticate(&store, &mut lim, Some("secret-a"), 0).is_ok());
    assert!(authenticate(&store, &mut lim, Some("secret-a"), 0).is_ok());
    assert_eq!(authenticate(&store, &mut lim, Some("secret-a"), 0), Err(BAuthError::RateLimited));
    // an unknown token still reads as invalid, not rate-limited
    assert_eq!(authenticate(&store, &mut lim, Some("nope"), 0), Err(BAuthError::Invalid));
}

#[test]
fn rejected_requests_spend_no_permit() {
    let mut store = Store::new();
    store.insert(entity(1, "secret-a"));
    let mut lim = get_rate_limiter();
    // invalid attempts first: they must not charge anyone's quota
    for _ in 0..5 {
        assert_eq!(authenticate(&store, &mut lim, Some("nope"), 0), Err(BAuthError::Invalid));
        assert_eq!(authenticate(&store, &mut lim, None, 0), Err(BAuthError::Missing));
    }
    assert!(authenticate(&store, &mut lim, Some("secret-a"), 0).is_ok());
    assert!(authenticate(&store, &mut lim, Some("secret-a"), 0).is_ok());
}

#[test]
fn distinct_principals_have_independent_quotas() {
    let mut store = Store::new();
    store.insert(entity(1, "secret-a"));
    store.insert(entity(2, "secret-b"));
    let mut lim = get_rate_limiter();
    assert!(authenticate(&store, &mut lim, Some("secret-a"), 0).is_ok());
    assert!(authenticate(&store, &mut lim, Some("secret-a"), 0).is_ok());
    assert_eq!(authenticate(&store, &mut lim, Some("secret-a"), 0), Err(BAuthError::RateLimited));
    assert!(authenticate(&store, &mut lim, Some("secret-b"), 0).is_ok());
}
