//! Notification fan-out: compose one message per enabled channel.
//!
//! Given an entity snapshot, the direction of its status change and the
//! elapsed duration, this builds the messages to send: one per enabled
//! channel, each carrying the channel's destination, a direction-specific
//! title and severity, and a body that embeds the human-readable duration
//! phrase.  The caller dispatches each message independently as a detached
//! unit of work, so one channel's failure cannot affect, delay or retry any
//! other channel and never reaches the path that triggered the event.

use vstd::prelude::*;
use crate::entity::{ChannelKind, ChannelKindView, ChannelView, Entity, EntityView};
use crate::format::{format_duration, spec_duration_phrase};

verus! {

/// What kind of status change is being announced.
#[derive(Clone, Copy, Debug, PartialEq, Eq, Structural)]
pub enum Direction {
    /// The entity was seen for the first time.
    FirstContact,
    /// The entity recovered from being down.
    Recovered,
    /// The entity missed its deadline and went down.
    WentDown,
}

/// How urgently a channel should present the message.
#[derive(Clone, Copy, Debug, PartialEq, Eq, Structural)]
pub enum Severity {
    Info,
    Warning,
}

/// One composed message, ready to hand to a channel.
#[derive(Debug)]
pub struct Notification {
    /// Where to send it.
    pub channel: ChannelKind,
    pub title: String,
    pub body: String,
    pub severity: Severity,
}

/// Mathematical view of a composed message.
#[verifier::ext_equal]
pub struct NotificationView {
    pub channel: ChannelKindView,
    pub title: Seq<char>,
    pub body: Seq<char>,
    pub severity: Severity,
}

impl View for Notification {
    type V = NotificationView;

    open spec fn view(&self) -> NotificationView {
        NotificationView {
            channel: self.channel@,
            title: self.title@,
            body: self.body@,
            severity: self.severity,
        }
    }
}

/// The title announcing each direction.
pub open spec fn spec_title(d: Direction) -> Seq<char> {
    match d {
        Direction::FirstContact => "Device connected!"@,
        Direction::Recovered => "Back online!"@,
        Direction::WentDown => "Gone offline!"@,
    }
}

/// The words the duration phrase is embedded after, per direction.
pub open spec fn spec_body_prefix(d: Direction) -> Seq<char> {
    match d {
        Direction::FirstContact => "First heartbeat after "@,
        Direction::Recovered => "Back online after being down for "@,
        Direction::WentDown => "Gone offline after being up for "@,
    }
}

/// The message body: the duration phrase embedded in the direction's
/// template.
pub open spec fn spec_body(d: Direction, secs: u64) -> Seq<char> {
    spec_body_prefix(d) + spec_duration_phrase(secs as nat)
}

/// Going down warns; everything else informs.
pub open spec fn spec_severity(d: Direction) -> Severity {
    match d {
        Direction::WentDown => Severity::Warning,
        _ => Severity::Info,
    }
}

/// The enabled channels, in declaration order.
pub open spec fn spec_enabled_channels(cs: Seq<ChannelView>) -> Seq<ChannelView>
    decreases cs.len(),
{
    if cs.len() == 0 {
        Seq::empty()
    } else {
        let rest = spec_enabled_channels(cs.drop_last());
        if cs.last().enabled {
            rest.push(cs.last())
        } else {
            rest
        }
    }
}

/// The messages one status change produces: one per enabled channel, each
/// with the direction's title, body and severity.
pub open spec fn spec_notifications(e: EntityView, d: Direction, secs: u64) -> Seq<
    NotificationView,
> {
    spec_enabled_channels(e.channels).map_values(
        |c: ChannelView|
            NotificationView {
                channel: c.kind,
                title: spec_title(d),
                body: spec_body(d, secs),
                severity: spec_severity(d),
            },
    )
}

fn title_str(d: Direction) -> (r: &'static str)
    ensures
        r@ == spec_title(d),
{
    match d {
        Direction::FirstContact => "Device connected!",
        Direction::Recovered => "Back online!",
        Direction::WentDown => "Gone offline!",
    }
}

fn body_prefix_str(d: Direction) -> (r: &'static str)
    ensures
        r@ == spec_body_prefix(d),
{
    match d {
        Direction::FirstContact => "First heartbeat after ",
        Direction::Recovered => "Back online after being down for ",
        Direction::WentDown => "Gone offline after being up for ",
    }
}

/// Compose the messages for one status change of one entity: exactly one
/// message per enabled channel, in channel order, each carrying the
/// direction's title and severity and a body embedding the duration phrase.
#[verifier::loop_isolation(false)]
pub fn build_notifications(entity: &Entity, direction: Direction, elapsed_secs: u64) -> (out: Vec<
    Notification,
>)
    ensures
        out@.map_values(|n: Notification| n@) == spec_notifications(
            entity@,
            direction,
            elapsed_secs,
        ),
{
    let ghost cs = entity@.channels;
    let ghost f = |c: ChannelView|
        NotificationView {
            channel: c.kind,
            title: spec_title(direction),
            body: spec_body(direction, elapsed_secs),
            severity: spec_severity(direction),
        };
    let title = String::from_str(title_str(direction));
    let phrase = format_duration(elapsed_secs);
    let mut body = String::from_str(body_prefix_str(direction));
    body.append(phrase.as_str());
    let n = entity.channels.len();
    let mut out: Vec<Notification> = Vec::new();
    let mut i: usize = 0;
    proof {
        assert(out@.map_values(|nf: Notification| nf@) =~= spec_enabled_channels(
            cs.take(0),
        ).map_values(f));
    }
    while i < n
        invariant
            i <= n,
            n == cs.len(),
            cs == entity@.channels,
            title@ == spec_title(direction),
            body@ == spec_body(direction, elapsed_secs),
            out@.map_values(|nf: Notification| nf@) == spec_enabled_channels(
                cs.take(i as int),
            ).map_values(f),
        decreases n - i,
    {
        proof {
            assert(cs[i as int] == entity.channels@[i as int]@);
            assert(cs.take(i + 1).drop_last() =~= cs.take(i as int));
            assert(cs.take(i + 1).last() == cs[i as int]);
        }
        if entity.channels[i].enabled {
            let msg = Notification {
                channel: entity.channels[i].kind.clone(),
                title: title.clone(),
                body: body.clone(),
                severity: severity_for(direction),
            };
            proof {
                assert(msg@ == f(cs[i as int]));
            }
            let ghost out0 = out@;
            out.push(msg);
            proof {
                assert(cs[i as int].enabled);
                assert(spec_enabled_channels(cs.take(i + 1)) =~= spec_enabled_channels(
                    cs.take(i as int),
                ).push(cs[i as int]));
                let m0 = out@.map_values(|nf: Notification| nf@);
                let m1 = spec_enabled_channels(cs.take(i + 1)).map_values(f);
                let prev = spec_enabled_channels(cs.take(i as int)).map_values(f);
                assert(out@ == out0.push(msg));
                assert(m0.len() == m1.len());
                assert forall|k: int| 0 <= k < m0.len() implies m0[k] == m1[k] by {
                    if k < out0.len() {
                        assert(out@[k] == out0[k]);
                        assert(m0[k] == out0[k]@);
                        assert(out0.map_values(|nf: Notification| nf@)[k] == out0[k]@);
                        assert(prev[k] == out0[k]@);
                        assert(m1[k] == prev[k]);
                    } else {
                        assert(out@[k] == msg);
                        assert(m1[k] == f(cs[i as int]));
                    }
                }
                assert(m0 =~= m1);
            }
        } else {
            proof {
                assert(!cs[i as int].enabled);
                assert(spec_enabled_channels(cs.take(i + 1)) =~= spec_enabled_channels(
                    cs.take(i as int),
                ));
                assert(out@.map_values(|nf: Notification| nf@) =~= spec_enabled_channels(
                    cs.take(i + 1),
                ).map_values(f));
            }
        }
        i += 1;
    }
    proof {
        assert(cs.take(n as int) =~= cs);
        assert(spec_enabled_channels(cs).map_values(f) =~= spec_notifications(
            entity@,
            direction,
            elapsed_secs,
        ));
    }
    out
}

/// The severity a direction carries.
pub fn severity_for(d: Direction) -> (s: Severity)
    ensures
        s == spec_severity(d),
{
    match d {
        Direction::WentDown => Severity::Warning,
        _ => Severity::Info,
    }
}

} // verus!
