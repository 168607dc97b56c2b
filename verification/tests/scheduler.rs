use uptime_core::entity::{Channel, ChannelKind, Entity, UserType};
use uptime_core::heartbeat::{Heartbeat, UpStatus};
use uptime_core::scheduler::DEFAULT_SLEEP_FLOOR_SECS;
use uptime_core::store::Store;

fn entity_with(id: u64, status: UpStatus, touched_at: u64, up_delay: u64) -> Entity {
    Entity {
        id,
        kind: UserType::Standard,
        invites_limit: 0,
        invites_used: 0,
        access_token: format!("tok-{id}"),
        up_delay,
        down_delay: 60,
        channels: vec![Channel {
            enabled: true,
            kind: ChannelKind::Push { topic: format!("topic_{id}") },
        }],
        heartbeat: Heartbeat { status, touched_at, state_changed_at: touched_at },
    }
}

#[test]
fn empty_store_sleeps_the_floor() {
    let store = Store::new();
    let plan = store.plan_cycle(100, DEFAULT_SLEEP_FLOOR_SECS);
    assert!(plan.overdue.is_empty());
    assert_eq!(plan.sleep_for, 5);
}

#[test]
fn sleep_tracks_the_nearest_deadline() {
    let mut store = Store::new();
    store.insert(entity_with(1, UpStatus::Up, 100, 300)); // due at 400
    store.insert(entity_with(2, UpStatus::Up, 100, 120)); // due at 220
    let plan = store.plan_cycle(150, DEFAULT_SLEEP_FLOOR_SECS);
    assert!(plan.overdue.is_empty());
    assert_eq!(plan.sleep_for, 70);
}

#[test]
fn sleep_never_goes_below_the_floor() {
    let mut store = Store::new();
    store.insert(entity_with(1, UpStatus::Up, 100, 60)); // due at 160
    let plan = store.plan_cycle(158, DEFAULT_SLEEP_FLOOR_SECS);
    assert!(plan.overdue.is_empty());
    assert_eq!(plan.sleep_for, 5); // remaining 2 is floored
}

#[test]
fn overdue_entities_are_all_detected_in_the_same_cycle() {
    let mut store = Store::new();
    store.insert(entity_with(1, UpStatus::Up, 0, 60)); // due at 60
    store.insert(entity_with(2, UpStatus::Uninitialized, 10, 60)); // due at 70
    store.insert(entity_with(3, UpStatus::Up, 90, 60)); // due at 150
    store.insert(entity_with(4, UpStatus::Maintenance, 0, 60)); // never watched
    store.insert(entity_with(5, UpStatus::Down, 0, 60)); // already down

    let plan = store.plan_cycle(100, DEFAULT_SLEEP_FLOOR_SECS);
    assert_eq!(plan.overdue, vec![1, 2]);
    assert_eq!(plan.sleep_for, 50);
}

#[test]
fn run_cycle_expires_every_overdue_entity_and_reports_events() {
    let mut store = Store::new();
    store.insert(entity_with(1, UpStatus::Up, 0, 60));
    store.insert(entity_with(2, UpStatus::Up, 90, 60)); // not due at 100
    let (events, sleep) = store.run_cycle(100, DEFAULT_SLEEP_FLOOR_SECS);
    assert_eq!(sleep, 50);
    assert_eq!(events.len(), 1);
    let (snap, uptime) = &events[0];
    assert_eq!(snap.id, 1);
    assert_eq!(*uptime, 100);
    assert_eq!(snap.heartbeat.status, UpStatus::Down);
    assert_eq!(store.get(1).unwrap().heartbeat.status, UpStatus::Down);
    assert_eq!(store.get(1).unwrap().heartbeat.state_changed_at, 100);
    assert_eq!(store.get(2).unwrap().heartbeat.status, UpStatus::Up);
}

#[test]
fn second_cycle_fires_no_duplicate_alert() {
    let mut store = Store::new();
    store.insert(entity_with(1, UpStatus::Up, 0, 60));
    let (events1, _) = store.run_cycle(100, DEFAULT_SLEEP_FLOOR_SECS);
    assert_eq!(events1.len(), 1);
    // still overdue, but already down: the cycle stays silent
    let (events2, sleep2) = store.run_cycle(200, DEFAULT_SLEEP_FLOOR_SECS);
    assert!(events2.is_empty());
    assert_eq!(sleep2, 5);
    assert_eq!(store.get(1).unwrap().heartbeat.state_changed_at, 100);
}

#[test]
fn maintenance_is_never_expired() {
    let mut store = Store::new();
    store.insert(entity_with(1, UpStatus::Maintenance, 0, 60));
    let (events, sleep) = store.run_cycle(1000, DEFAULT_SLEEP_FLOOR_SECS);
    assert!(events.is_empty());
    assert_eq!(sleep, 5);
    assert_eq!(store.get(1).unwrap().heartbeat.status, UpStatus::Maintenance);
}
