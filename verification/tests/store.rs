use uptime_core::actions::{create_invite, create_user, CreateUserError};
use uptime_core::entity::{
    Channel, ChannelKind, Entity, NewInvite, NewUser, UserType, ValidationError,
};
use uptime_core::heartbeat::{Heartbeat, UpStatus};
use uptime_core::store::{InviteError, Store, StoreError};

fn entity(id: u64, token: &str, chat_id: i64, up_delay: u64, created: u64) -> Entity {
    Entity {
        id,
        kind: UserType::Standard,
        invites_limit: 2,
        invites_used: 0,
        access_token: token.to_string(),
        up_delay,
        down_delay: 60,
        channels: vec![
            Channel { enabled: true, kind: ChannelKind::Push { topic: format!("topic_{id}") } },
            Channel { enabled: true, kind: ChannelKind::Chat { chat_id } },
        ],
        heartbeat: Heartbeat::new(created),
    }
}

#[test]
fn insert_and_lookup_by_every_index() {
    let mut store = Store::new();
    assert!(!store.insert(entity(1, "tok-a", 100, 60, 0)));
    assert!(!store.insert(entity(2, "tok-b", 200, 60, 0)));
    assert_eq!(store.num_entities(), 2);

    assert_eq!(store.get(1).map(|e| e.id), Some(1));
    assert_eq!(store.get(2).map(|e| e.id), Some(2));
    assert!(store.get(3).is_none());

    assert_eq!(store.get_by_token("tok-a"), Some(1));
    assert_eq!(store.get_by_token("tok-b"), Some(2));
    assert_eq!(store.get_by_token("tok-c"), None);

    assert_eq!(store.get_by_channel_id(100), Some(1));
    assert_eq!(store.get_by_channel_id(200), Some(2));
    assert_eq!(store.get_by_channel_id(300), None);
}

#[test]
fn duplicate_insert_reports_anomaly_and_overwrites() {
    let mut store = Store::new();
    assert!(!store.insert(entity(1, "tok-a", 100, 60, 0)));
    let dup = store.insert(entity(1, "tok-a2", 100, 90, 5));
    assert!(dup);
    assert_eq!(store.num_entities(), 1);
    assert_eq!(store.get(1).map(|e| e.up_delay), Some(90));
    assert_eq!(store.get_by_token("tok-a2"), Some(1));
    assert_eq!(store.get_by_token("tok-a"), None);
}

#[test]
fn touch_entity_unknown_id_is_reported() {
    let mut store = Store::new();
    assert!(matches!(store.touch_entity(9, 10), Err(StoreError::EntityNotFound)));
}

#[test]
fn touch_entity_updates_in_place_and_signals_recovery() {
    let mut store = Store::new();
    let mut e = entity(1, "tok-a", 100, 60, 0);
    e.heartbeat = Heartbeat { status: UpStatus::Down, touched_at: 10, state_changed_at: 10 };
    store.insert(e);
    let r = store.touch_entity(1, 70).unwrap();
    let (snap, downtime) = r.expect("recovery event");
    assert_eq!(downtime, 60);
    assert_eq!(snap.heartbeat.status, UpStatus::Up);
    assert_eq!(store.get(1).unwrap().heartbeat.status, UpStatus::Up);
    // a second heartbeat is silent
    let r2 = store.touch_entity(1, 80).unwrap();
    assert!(r2.is_none());
    assert_eq!(store.get(1).unwrap().heartbeat.touched_at, 80);
}

#[test]
fn invites_charge_the_owner_budget() {
    let mut store = Store::new();
    store.insert(entity(1, "tok-a", 100, 60, 0));

    assert!(store.can_create_invite(1).is_ok());
    assert_eq!(store.can_create_invite(9), Err(InviteError::OwnerNotFound));

    let inv1 = create_invite(&mut store, &NewInvite { owner_id: 1 }, 50, "inv-1".to_string())
        .unwrap();
    assert_eq!(inv1.owner_id, 1);
    assert!(!inv1.is_used);
    let _inv2 = create_invite(&mut store, &NewInvite { owner_id: 1 }, 51, "inv-2".to_string())
        .unwrap();
    assert_eq!(store.get(1).unwrap().invites_used, 2);

    // budget of two is now spent
    assert_eq!(store.can_create_invite(1), Err(InviteError::InvitesExhausted));
    assert!(matches!(
        create_invite(&mut store, &NewInvite { owner_id: 1 }, 52, "inv-3".to_string()),
        Err(InviteError::InvitesExhausted)
    ));

    assert_eq!(store.get_invite("inv-1").map(|v| v.id), Some(50));
    assert_eq!(store.get_invite("inv-9").map(|v| v.id), None);
    assert_eq!(store.invites().len(), 2);
}

fn new_user_opts(invite: Option<&str>) -> NewUser {
    NewUser {
        invite: invite.map(|s| s.to_string()),
        user_type: UserType::Standard,
        invites_limit: 2,
        up_delay: Some(60),
        down_delay: Some(60),
        ntfy_enabled: true,
        tg_enabled: false,
        tg_user_id: 77,
        tg_language_code: "en".to_string(),
    }
}

#[test]
fn create_user_without_invite_registers_entity() {
    let mut store = Store::new();
    let r = create_user(
        &mut store,
        &new_user_opts(None),
        1,
        "tok-a".to_string(),
        "topic_a".to_string(),
        1000,
    );
    assert_eq!(r, Ok(false));
    let e = store.get(1).unwrap();
    assert_eq!(e.heartbeat.status, UpStatus::Uninitialized);
    assert_eq!(e.heartbeat.touched_at, 1000);
    assert_eq!(e.up_delay, 60);
    assert_eq!(e.invites_used, 0);
    assert_eq!(store.get_by_token("tok-a"), Some(1));
}

#[test]
fn create_user_with_unknown_invite_is_rejected() {
    let mut store = Store::new();
    let r = create_user(
        &mut store,
        &new_user_opts(Some("nope")),
        1,
        "tok-a".to_string(),
        "topic_a".to_string(),
        1000,
    );
    assert_eq!(r, Err(CreateUserError::InviteNotFound));
    assert_eq!(store.num_entities(), 0);
}

#[test]
fn create_user_with_valid_invite_succeeds() {
    let mut store = Store::new();
    store.insert(entity(1, "tok-owner", 100, 60, 0));
    create_invite(&mut store, &NewInvite { owner_id: 1 }, 50, "inv-1".to_string()).unwrap();

    let mut opts = new_user_opts(Some("inv-1"));
    opts.tg_user_id = 200;
    let r = create_user(&mut store, &opts, 2, "tok-b".to_string(), "topic_b".to_string(), 2000);
    assert_eq!(r, Ok(false));
    assert_eq!(store.get_by_token("tok-b"), Some(2));
}

#[test]
fn create_user_rejects_bad_fields() {
    let mut store = Store::new();
    let mut opts = new_user_opts(None);
    opts.invites_limit = -1;
    let r = create_user(&mut store, &opts, 1, "t".to_string(), "p".to_string(), 0);
    assert_eq!(r, Err(CreateUserError::InvalidRequest(ValidationError::NegativeInvitesLimit)));

    let mut opts2 = new_user_opts(None);
    opts2.up_delay = Some(0);
    let r2 = create_user(&mut store, &opts2, 1, "t".to_string(), "p".to_string(), 0);
    assert_eq!(r2, Err(CreateUserError::InvalidRequest(ValidationError::ZeroUpDelay)));

    let mut opts3 = new_user_opts(None);
    opts3.down_delay = Some(0);
    let r3 = create_user(&mut store, &opts3, 1, "t".to_string(), "p".to_string(), 0);
    assert_eq!(r3, Err(CreateUserError::InvalidRequest(ValidationError::ZeroDownDelay)));
    assert_eq!(store.num_entities(), 0);
}

#[test]
fn create_user_applies_default_delays() {
    let mut store = Store::new();
    let mut opts = new_user_opts(None);
    opts.up_delay = None;
    opts.down_delay = None;
    create_user(&mut store, &opts, 1, "t".to_string(), "p".to_string(), 0).unwrap();
    let e = store.get(1).unwrap();
    assert_eq!(e.up_delay, 60);
    assert_eq!(e.down_delay, 60);
}
