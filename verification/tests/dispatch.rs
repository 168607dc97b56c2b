use uptime_core::dispatch::{build_notifications, Direction, Severity};
use uptime_core::entity::{Channel, ChannelKind, Entity, UserType};
use uptime_core::heartbeat::Heartbeat;

fn entity_with_channels(channels: Vec<Channel>) -> Entity {
    Entity {
        id: 1,
        kind: UserType::Standard,
        invites_limit: 0,
        invites_used: 0,
        access_token: "tok".to_string(),
        up_delay: 60,
        down_delay: 60,
        channels,
        heartbeat: Heartbeat::new(0),
    }
}

#[test]
fn one_message_per_enabled_channel() {
    let e = entity_with_channels(vec![
        Channel { enabled: true, kind: ChannelKind::Push { topic: "topic_a".to_string() } },
        Channel { enabled: false, kind: ChannelKind::Chat { chat_id: 7 } },
        Channel { enabled: true, kind: ChannelKind::Chat { chat_id: 9 } },
    ]);
    let out = build_notifications(&e, Direction::WentDown, 3600);
    assert_eq!(out.len(), 2);
    assert!(matches!(&out[0].channel, ChannelKind::Push { topic } if topic == "topic_a"));
    assert!(matches!(&out[1].channel, ChannelKind::Chat { chat_id: 9 }));
}

#[test]
fn disabled_channels_get_nothing() {
    let e = entity_with_channels(vec![
        Channel { enabled: false, kind: ChannelKind::Push { topic: "t".to_string() } },
        Channel { enabled: false, kind: ChannelKind::Chat { chat_id: 7 } },
    ]);
    assert!(build_notifications(&e, Direction::Recovered, 60).is_empty());
}

#[test]
fn went_down_message_content() {
    let e = entity_with_channels(vec![Channel {
        enabled: true,
        kind: ChannelKind::Push { topic: "t".to_string() },
    }]);
    let out = build_notifications(&e, Direction::WentDown, 3600);
    assert_eq!(out[0].title, "Gone offline!");
    assert_eq!(out[0].body, "Gone offline after being up for 1 hour");
    assert_eq!(out[0].severity, Severity::Warning);
}

#[test]
fn recovered_message_content() {
    let e = entity_with_channels(vec![Channel {
        enabled: true,
        kind: ChannelKind::Push { topic: "t".to_string() },
    }]);
    let out = build_notifications(&e, Direction::Recovered, 2100);
    assert_eq!(out[0].title, "Back online!");
    assert_eq!(out[0].body, "Back online after being down for 35 minutes");
    assert_eq!(out[0].severity, Severity::Info);
}

#[test]
fn first_contact_message_content() {
    let e = entity_with_channels(vec![Channel {
        enabled: true,
        kind: ChannelKind::Chat { chat_id: 7 },
    }]);
    let out = build_notifications(&e, Direction::FirstContact, 0);
    assert_eq!(out[0].title, "Device connected!");
    assert_eq!(out[0].body, "First heartbeat after 0 minutes");
    assert_eq!(out[0].severity, Severity::Info);
}
