use uptime_core::actions::create_user;
use uptime_core::auth::{authenticate, BAuth};
use uptime_core::dispatch::{build_notifications, Direction};
use uptime_core::entity::{NewUser, UserType};
use uptime_core::heartbeat::UpStatus;
use uptime_core::limiter::get_rate_limiter;
use uptime_core::scheduler::DEFAULT_SLEEP_FLOOR_SECS;
use uptime_core::store::Store;

// An entity is created uninitialized; its first heartbeat is silent and does
// not change the status; once up_delay passes with no further heartbeat, the
// scheduler cycle expires it, the status becomes down, and a dispatch is
// triggered whose duration is the time since creation.
#[test]
fn lifecycle_from_creation_to_missed_heartbeat() {
    let mut store = Store::new();
    let mut lim = get_rate_limiter();
    let opts = NewUser {
        invite: None,
        user_type: UserType::Standard,
        invites_limit: 0,
        up_delay: Some(60),
        down_delay: Some(60),
        ntfy_enabled: true,
        tg_enabled: false,
        tg_user_id: 7,
        tg_language_code: "en".to_string(),
    };
    let created_at: u64 = 1000;
    create_user(&mut store, &opts, 1, "secret".to_string(), "topic".to_string(), created_at)
        .unwrap();
    assert_eq!(store.get(1).unwrap().heartbeat.status, UpStatus::Uninitialized);

    // first heartbeat arrives: authenticated, touched, but no transition
    let who = authenticate(&store, &mut lim, Some("token secret"), 1_010_000);
    assert_eq!(who, Ok(BAuth { uid: 1 }));
    let event = store.touch_entity(1, 1010).unwrap();
    assert!(event.is_none());
    assert_eq!(store.get(1).unwrap().heartbeat.status, UpStatus::Uninitialized);
    assert_eq!(store.get(1).unwrap().heartbeat.touched_at, 1010);

    // a cycle before the deadline does nothing and sleeps until it
    let (quiet, sleep) = store.run_cycle(1030, DEFAULT_SLEEP_FLOOR_SECS);
    assert!(quiet.is_empty());
    assert_eq!(sleep, 40);

    // up_delay passes with no further heartbeat: the next cycle expires it
    let (events, _) = store.run_cycle(1075, DEFAULT_SLEEP_FLOOR_SECS);
    assert_eq!(events.len(), 1);
    let (snapshot, elapsed) = &events[0];
    assert_eq!(snapshot.heartbeat.status, UpStatus::Down);
    assert_eq!(*elapsed, 75); // since creation
    assert_eq!(store.get(1).unwrap().heartbeat.status, UpStatus::Down);

    // the dispatcher composes one message for the one enabled channel
    let messages = build_notifications(snapshot, Direction::WentDown, *elapsed);
    assert_eq!(messages.len(), 1);
    assert_eq!(messages[0].body, "Gone offline after being up for 1 minute");

    // a later heartbeat is a recovery and reports the downtime
    let event = store.touch_entity(1, 1200).unwrap();
    let (snap2, downtime) = event.expect("recovery");
    assert_eq!(downtime, 125);
    assert_eq!(snap2.heartbeat.status, UpStatus::Up);
    let recovery = build_notifications(&snap2, Direction::Recovered, downtime);
    assert_eq!(recovery[0].body, "Back online after being down for 2 minutes");
}
